use vstd::prelude::*;
use crate::event::{source_error, source_error_prefix, Plan, PlanView};
use crate::key::{VoiceAction, VoiceChannelKey};

verus! {

/// The voice requests that join a channel and start playing there.
pub open spec fn play_actions(k: VoiceChannelKey) -> Seq<VoiceAction> {
    seq![VoiceAction::Connect(k), VoiceAction::SetDeaf(k, true), VoiceAction::Play(k)]
}

/// Join `k` deafened and play the stream resolved for it.
pub fn play_sequence(k: VoiceChannelKey) -> (r: Vec<VoiceAction>)
    ensures
        r@ == play_actions(k),
{
    let r = vec![VoiceAction::Connect(k), VoiceAction::SetDeaf(k, true), VoiceAction::Play(k)];
    assert(r@ =~= play_actions(k));
    r
}

/// What follows an attempt to open a stream: play it, or reply with the error text.
pub open spec fn resolved_plan(
    channel_id: u64,
    message_id: u64,
    k: VoiceChannelKey,
    outcome: Result<(), Seq<char>>,
) -> PlanView {
    match outcome {
        Ok(_) => PlanView::Play { channel_id, message_id, key: k },
        Err(e) => PlanView::Reply { channel_id, text: source_error_prefix() + e },
    }
}

/// Turns the source resolver's outcome into the plan that follows.
pub fn after_resolve(channel_id: u64, message_id: u64, k: VoiceChannelKey, outcome: Result<(), String>) -> (r: Plan)
    ensures
        r@ == resolved_plan(
            channel_id,
            message_id,
            k,
            match outcome {
                Ok(_) => Ok(()),
                Err(e) => Err(e@),
            },
        ),
{
    match outcome {
        Ok(_) => Plan::Play { channel_id, message_id, key: k },
        Err(e) => Plan::Reply { channel_id, text: source_error(e.as_str()) },
    }
}

} // verus!
