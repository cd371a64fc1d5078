use vstd::prelude::*;
use vstd::string::*;
use crate::event::{fetch_failed, fetch_failed_text, no_voice, no_voice_text, Message, Plan, PlanView, Reaction};
use crate::text::{
    contains, has_many_tokens, lemma_skip_space, lemma_skip_word, range_contains, skip_space,
    skip_space_at, skip_word, skip_word_at,
};
use crate::world::{locate, WorldState, WorldView};

verus! {

/// What marks a token as a link.
pub open spec fn url_marker() -> Seq<char> {
    "https://"@
}

/// The first token at or after position `i` that holds a link, or empty when none does.
pub open spec fn url_token_from(s: Seq<char>, i: int) -> Seq<char>
    decreases s.len() - i,
{
    let b = skip_space(s, i);
    let e = skip_word(s, b);
    if !(0 <= i && i < e && e <= s.len()) {
        Seq::empty()
    } else if contains(s.subrange(b, e), url_marker()) {
        s.subrange(b, e)
    } else {
        url_token_from(s, e)
    }
}

/// The play argument carried by a reacted message: its first link token when it
/// holds several tokens, else the whole content.
pub open spec fn play_argument_of(s: Seq<char>) -> Seq<char> {
    if has_many_tokens(s) {
        url_token_from(s, 0)
    } else {
        s
    }
}

/// The reaction that asks for a message to be played.
pub open spec fn trigger_emoji() -> Seq<char> {
    "👆"@
}

/// A trigger reaction by another user asks for the reacted message.
pub open spec fn reaction_plan(w: WorldView, r: Reaction) -> PlanView {
    if r.user_id != w.user_id && r.emoji@ == trigger_emoji() {
        PlanView::FetchMessage { channel_id: r.channel_id, message_id: r.message_id }
    } else {
        PlanView::Idle
    }
}

/// What a fetched (or failed) reacted message asks for; replies go to `reply_channel`.
pub open spec fn fetched_plan(w: WorldView, reply_channel: u64, fetched: Option<Message>) -> PlanView {
    match fetched {
        None => PlanView::Reply { channel_id: reply_channel, text: fetch_failed_text() },
        Some(m) => match locate(w, m.author_id) {
            None => PlanView::Reply { channel_id: reply_channel, text: no_voice_text() },
            Some(k) => PlanView::Resolve {
                channel_id: m.channel_id,
                message_id: m.id,
                key: k,
                argument: play_argument_of(m.content@),
            },
        },
    }
}

/// Extracts the play argument from a reacted message's content.
pub fn play_argument(content: &str) -> (r: String)
    ensures
        r@ == play_argument_of(content@),
{
    let ghost s = content@;
    let n = content.unicode_len();
    proof {
        lemma_skip_space(s, 0);
    }
    let b0 = skip_space_at(content, 0);
    let e0 = skip_word_at(content, b0);
    if skip_space_at(content, e0) >= n {
        return String::from_str(content);
    }
    let mut i: usize = 0;
    while i < n
        invariant
            n == s.len(),
            s == content@,
            i <= n,
            has_many_tokens(s),
            url_token_from(s, 0) == url_token_from(s, i as int),
        decreases n - i,
    {
        let b = skip_space_at(content, i);
        let e = skip_word_at(content, b);
        proof {
            lemma_skip_space(s, i as int);
            lemma_skip_word(s, b as int);
            assert(url_token_from(s, i as int) == if !(i < e && e <= n) {
                Seq::empty()
            } else if contains(s.subrange(b as int, e as int), url_marker()) {
                s.subrange(b as int, e as int)
            } else {
                url_token_from(s, e as int)
            });
        }
        if b >= n {
            return String::new();
        }
        if range_contains(content, b, e, "https://") {
            return String::from_str(content.substring_char(b, e));
        }
        i = e;
    }
    proof {
        lemma_skip_space(s, i as int);
        lemma_skip_word(s, skip_space(s, i as int));
    }
    String::new()
}

/// Turns a reaction into the plan it asks for.
pub fn route_reaction(world: &WorldState, r: &Reaction) -> (p: Plan)
    ensures
        p@ == reaction_plan(world@, *r),
{
    let trigger = String::from_str("👆");
    if r.user_id != world.identity() && r.emoji == trigger {
        Plan::FetchMessage { channel_id: r.channel_id, message_id: r.message_id }
    } else {
        Plan::Idle
    }
}

/// Turns the outcome of fetching a reacted message into the plan it asks for.
pub fn after_fetch(world: &WorldState, reply_channel: u64, fetched: Option<Message>) -> (p: Plan)
    ensures
        p@ == fetched_plan(world@, reply_channel, fetched),
{
    match fetched {
        None => Plan::Reply { channel_id: reply_channel, text: fetch_failed() },
        Some(m) => match world.find_voice_channel_of(m.author_id) {
            None => Plan::Reply { channel_id: reply_channel, text: no_voice() },
            Some(k) => Plan::Resolve {
                channel_id: m.channel_id,
                message_id: m.id,
                key: k,
                argument: play_argument(m.content.as_str()),
            },
        },
    }
}

} // verus!
