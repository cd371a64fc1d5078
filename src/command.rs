use vstd::prelude::*;
use vstd::string::*;
use crate::event::{guidance, guidance_text, Marker, Message, Plan, PlanView};
use crate::key::{VoiceAction, VoiceChannelKey};
use crate::text::{
    eq_ignore_case, first_token, lemma_skip_space, range_eq_ignore_case, skip_space_at,
    skip_word_at,
};
use crate::world::{locate, WorldState, WorldView};

verus! {

/// What a message asks for: nothing when the bot wrote it or it holds no token;
/// else, given the requester's voice location, token 0 decides: `stop` stops,
/// `quit` or `fuckoff` leaves, and any other token is played.
pub open spec fn message_plan(w: WorldView, m: Message) -> PlanView {
    let cmd = first_token(m.content@);
    if m.author_id == w.user_id {
        PlanView::Idle
    } else if cmd.len() == 0 {
        PlanView::Idle
    } else {
        match locate(w, m.author_id) {
            None => PlanView::Reply { channel_id: m.channel_id, text: guidance_text() },
            Some(k) => if eq_ignore_case(cmd, "stop"@) {
                PlanView::Acknowledge {
                    channel_id: m.channel_id,
                    message_id: m.id,
                    marker: Marker::Stop,
                    action: VoiceAction::Stop(k),
                }
            } else if eq_ignore_case(cmd, "quit"@) || eq_ignore_case(cmd, "fuckoff"@) {
                PlanView::Acknowledge {
                    channel_id: m.channel_id,
                    message_id: m.id,
                    marker: Marker::Quit,
                    action: VoiceAction::Disconnect(k),
                }
            } else {
                PlanView::Resolve {
                    channel_id: m.channel_id,
                    message_id: m.id,
                    key: k,
                    argument: cmd,
                }
            },
        }
    }
}

/// Turns a message into the plan it asks for.
pub fn route_message(world: &WorldState, m: &Message) -> (r: Plan)
    ensures
        r@ == message_plan(world@, *m),
{
    if m.author_id == world.identity() {
        return Plan::Idle;
    }
    let s = m.content.as_str();
    proof {
        lemma_skip_space(s@, 0);
    }
    let b0 = skip_space_at(s, 0);
    let e0 = skip_word_at(s, b0);
    if b0 == e0 {
        return Plan::Idle;
    }
    match world.find_voice_channel_of(m.author_id) {
        None => Plan::Reply { channel_id: m.channel_id, text: guidance() },
        Some(k) => {
            if range_eq_ignore_case(s, b0, e0, "stop") {
                Plan::Acknowledge {
                    channel_id: m.channel_id,
                    message_id: m.id,
                    marker: Marker::Stop,
                    action: VoiceAction::Stop(k),
                }
            } else if range_eq_ignore_case(s, b0, e0, "quit") || range_eq_ignore_case(
                s,
                b0,
                e0,
                "fuckoff",
            ) {
                Plan::Acknowledge {
                    channel_id: m.channel_id,
                    message_id: m.id,
                    marker: Marker::Quit,
                    action: VoiceAction::Disconnect(k),
                }
            } else {
                let argument = String::from_str(s.substring_char(b0, e0));
                Plan::Resolve { channel_id: m.channel_id, message_id: m.id, key: k, argument }
            }
        },
    }
}

/// A message that the bot itself wrote is never parsed: it asks for nothing.
pub proof fn lemma_own_messages_ignored(w: WorldView, m: Message)
    requires
        m.author_id == w.user_id,
    ensures
        message_plan(w, m) == PlanView::Idle,
{
}

/// A stop command acts on the requester's own channel and on no other.
pub proof fn lemma_stop_targets_requester(w: WorldView, m: Message, c: VoiceChannelKey)
    requires
        m.author_id != w.user_id,
        eq_ignore_case(first_token(m.content@), "stop"@),
        locate(w, m.author_id) == Some(c),
    ensures
        message_plan(w, m) == (PlanView::Acknowledge {
            channel_id: m.channel_id,
            message_id: m.id,
            marker: Marker::Stop,
            action: VoiceAction::Stop(c),
        }),
{
    reveal_strlit("stop");
}

/// A command from a requester in no voice channel gets the guidance reply and
/// touches no voice channel.
pub proof fn lemma_no_location_gets_guidance(w: WorldView, m: Message)
    requires
        m.author_id != w.user_id,
        first_token(m.content@).len() > 0,
        locate(w, m.author_id) is None,
    ensures
        message_plan(w, m) == (PlanView::Reply { channel_id: m.channel_id, text: guidance_text() }),
{
}

} // verus!
