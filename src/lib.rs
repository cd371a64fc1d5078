//! Session and voice-channel lifecycle for a chat bot: the world mirrored from
//! the gateway, occupancy of voice channels, and the routing of messages and
//! reactions into voice requests. I/O stays with the caller, which performs the
//! plans that these functions return.

pub mod actuator;
pub mod command;
pub mod event;
pub mod key;
pub mod occupancy;
pub mod reaction;
pub mod session;
pub mod text;
pub mod world;
