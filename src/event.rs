use vstd::prelude::*;
use vstd::string::*;
use crate::key::{VoiceAction, VoiceChannelKey};
use crate::world::{DirectCall, Server, Snapshot, VoiceState};

verus! {

/// A chat message as the gateway delivers it.
#[derive(Debug)]
pub struct Message {
    pub id: u64,
    pub channel_id: u64,
    pub author_id: u64,
    pub content: String,
}

/// A reaction added to a message.
#[derive(Debug)]
pub struct Reaction {
    pub user_id: u64,
    pub channel_id: u64,
    pub message_id: u64,
    pub emoji: String,
}

/// An inbound gateway event, reduced to the kinds that are acted on.
#[derive(Debug)]
pub enum Event {
    MessageCreate(Message),
    ReactionAdd(Reaction),
    VoiceStateUpdate { server_id: Option<u64>, state: VoiceState },
    /// A server became available, with its voice states.
    ServerCreate(Server),
    /// A server went away.
    ServerDelete(u64),
    /// A direct call was created or changed, with its voice states.
    CallCreate(DirectCall),
    /// A direct call on this channel ended.
    CallDelete(u64),
    /// The gateway sent a fresh snapshot.
    Ready(Snapshot),
    Other,
}

/// The reaction that acknowledges a command.
#[derive(Clone, Copy, Debug, PartialEq, Eq, Structural)]
pub enum Marker {
    Stop,
    Quit,
    Play,
}

/// What the event loop is to do next.
#[derive(Debug, PartialEq, Eq)]
pub enum Plan {
    /// Nothing to do.
    Idle,
    /// Send `text` to `channel_id`.
    Reply { channel_id: u64, text: String },
    /// React with `marker` on the message, then perform `action`.
    Acknowledge { channel_id: u64, message_id: u64, marker: Marker, action: VoiceAction },
    /// Open a stream for `argument`; the outcome goes to `after_resolve`.
    Resolve { channel_id: u64, message_id: u64, key: VoiceChannelKey, argument: String },
    /// React with the play marker on the message, then run `play_sequence(key)`.
    Play { channel_id: u64, message_id: u64, key: VoiceChannelKey },
    /// Fetch the message; the outcome goes to `after_fetch`.
    FetchMessage { channel_id: u64, message_id: u64 },
    /// Ask the voice transport for its channel in this scope; the answer goes to `vacate_if_alone`.
    CheckOccupancy { server_id: Option<u64> },
}

/// A plan as a mathematical value.
pub enum PlanView {
    Idle,
    Reply { channel_id: u64, text: Seq<char> },
    Acknowledge { channel_id: u64, message_id: u64, marker: Marker, action: VoiceAction },
    Resolve { channel_id: u64, message_id: u64, key: VoiceChannelKey, argument: Seq<char> },
    Play { channel_id: u64, message_id: u64, key: VoiceChannelKey },
    FetchMessage { channel_id: u64, message_id: u64 },
    CheckOccupancy { server_id: Option<u64> },
}

impl View for Plan {
    type V = PlanView;

    open spec fn view(&self) -> PlanView {
        match self {
            Plan::Idle => PlanView::Idle,
            Plan::Reply { channel_id, text } => PlanView::Reply { channel_id: *channel_id, text: text@ },
            Plan::Acknowledge { channel_id, message_id, marker, action } => PlanView::Acknowledge {
                channel_id: *channel_id,
                message_id: *message_id,
                marker: *marker,
                action: *action,
            },
            Plan::Resolve { channel_id, message_id, key, argument } => PlanView::Resolve {
                channel_id: *channel_id,
                message_id: *message_id,
                key: *key,
                argument: argument@,
            },
            Plan::Play { channel_id, message_id, key } => PlanView::Play {
                channel_id: *channel_id,
                message_id: *message_id,
                key: *key,
            },
            Plan::FetchMessage { channel_id, message_id } => PlanView::FetchMessage {
                channel_id: *channel_id,
                message_id: *message_id,
            },
            Plan::CheckOccupancy { server_id } => PlanView::CheckOccupancy { server_id: *server_id },
        }
    }
}

pub open spec fn guidance_text() -> Seq<char> {
    "You must be in a voice channel to use that command 😉"@
}

/// The reply to a requester who is in no voice channel.
pub fn guidance() -> (r: String)
    ensures
        r@ == guidance_text(),
{
    String::from_str("You must be in a voice channel to use that command 😉")
}

pub open spec fn fetch_failed_text() -> Seq<char> {
    "Error acquiring message data"@
}

/// The reply when a reacted message cannot be fetched.
pub fn fetch_failed() -> (r: String)
    ensures
        r@ == fetch_failed_text(),
{
    String::from_str("Error acquiring message data")
}

pub open spec fn no_voice_text() -> Seq<char> {
    "[Error] connecting to voice channel"@
}

/// The reply when a reacted message's author is in no voice channel.
pub fn no_voice() -> (r: String)
    ensures
        r@ == no_voice_text(),
{
    String::from_str("[Error] connecting to voice channel")
}

pub open spec fn source_error_prefix() -> Seq<char> {
    "[Error]: "@
}

/// The reply that carries a source resolver's error text.
pub fn source_error(err: &str) -> (r: String)
    ensures
        r@ == source_error_prefix() + err@,
{
    let mut t = String::from_str("[Error]: ");
    t.append(err);
    t
}

} // verus!
