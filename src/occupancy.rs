use vstd::prelude::*;
use crate::key::{VoiceAction, VoiceChannelKey};
use crate::world::{occupants, WorldState, WorldView};

verus! {

/// The key of channel `c` reached through an optional server scope.
pub open spec fn key_in(server_id: Option<u64>, c: u64) -> VoiceChannelKey {
    match server_id {
        Some(s) => VoiceChannelKey::ServerChannel { server_id: s, channel_id: c },
        None => VoiceChannelKey::DirectChannel { channel_id: c },
    }
}

/// After a voice-state change in scope `server_id`: when the bot sits in channel
/// `current` and at most one user (the bot) is left there, leave it; else nothing.
pub open spec fn vacate_plan(w: WorldView, server_id: Option<u64>, current: Option<u64>) -> Option<VoiceAction> {
    match current {
        None => None,
        Some(c) => match occupants(w, key_in(server_id, c)) {
            Some(n) => if n <= 1 {
                Some(VoiceAction::Disconnect(key_in(server_id, c)))
            } else {
                None
            },
            None => None,
        },
    }
}

/// Decides, from the current world, whether the bot is to leave its voice channel.
pub fn vacate_if_alone(world: &WorldState, server_id: Option<u64>, current: Option<u64>) -> (r: Option<VoiceAction>)
    ensures
        r == vacate_plan(world@, server_id, current),
{
    match current {
        None => None,
        Some(c) => {
            let k = VoiceChannelKey::of(server_id, c);
            match world.occupant_count(k) {
                Some(n) => if n <= 1 {
                    Some(VoiceAction::Disconnect(k))
                } else {
                    None
                },
                None => None,
            }
        },
    }
}

/// With at most the bot left in its channel the monitor asks for exactly one
/// disconnect, of that channel; with two or more occupants it asks for none.
pub proof fn lemma_vacate_only_when_alone(w: WorldView, server_id: Option<u64>, c: u64)
    ensures
        occupants(w, key_in(server_id, c)) matches Some(n) && n <= 1 ==> vacate_plan(w, server_id, Some(c))
            == Some(VoiceAction::Disconnect(key_in(server_id, c))),
        occupants(w, key_in(server_id, c)) matches Some(n) && n >= 2 ==> vacate_plan(
            w,
            server_id,
            Some(c),
        ) is None,
{
}

} // verus!
