use voicebot::actuator::{after_resolve, play_sequence};
use voicebot::command::route_message;
use voicebot::event::{source_error, Event, Marker, Message, Plan, Reaction};
use voicebot::key::{VoiceAction, VoiceChannelKey};
use voicebot::occupancy::vacate_if_alone;
use voicebot::reaction::{after_fetch, play_argument, route_reaction};
use voicebot::session::{Phase, RecvFailure, Session, Step};
use voicebot::text::{range_contains, range_eq_ignore_case, skip_space_at, skip_word_at};
use voicebot::world::{DirectCall, Server, Snapshot, VoiceState, WorldState};

const BOT: u64 = 1;

fn vs(user_id: u64, channel_id: Option<u64>) -> VoiceState {
    VoiceState { user_id, channel_id }
}

fn sample_snapshot() -> Snapshot {
    Snapshot {
        user_id: BOT,
        servers: vec![
            Server { id: 10, voice_states: vec![vs(BOT, Some(100)), vs(7, Some(100)), vs(8, Some(101))] },
            Server { id: 20, voice_states: vec![vs(9, None)] },
        ],
        calls: vec![DirectCall { channel_id: 500, voice_states: vec![vs(BOT, Some(500)), vs(11, Some(500))] }],
    }
}

fn world() -> WorldState {
    WorldState::from_snapshot(sample_snapshot())
}

fn message(author_id: u64, content: &str) -> Message {
    Message { id: 42, channel_id: 3, author_id, content: content.to_string() }
}

#[test]
fn find_voice_channel_in_server() {
    let w = world();
    assert_eq!(
        w.find_voice_channel_of(7),
        Some(VoiceChannelKey::ServerChannel { server_id: 10, channel_id: 100 })
    );
    assert_eq!(
        w.find_voice_channel_of(8),
        Some(VoiceChannelKey::ServerChannel { server_id: 10, channel_id: 101 })
    );
}

#[test]
fn find_voice_channel_in_call() {
    let w = world();
    assert_eq!(w.find_voice_channel_of(11), Some(VoiceChannelKey::DirectChannel { channel_id: 500 }));
}

#[test]
fn find_voice_channel_absent() {
    let w = world();
    assert_eq!(w.find_voice_channel_of(99), None);
    // a member with no channel is in no voice destination
    assert_eq!(w.find_voice_channel_of(9), None);
}

#[test]
fn find_voice_channel_prefers_servers() {
    let snap = Snapshot {
        user_id: BOT,
        servers: vec![Server { id: 10, voice_states: vec![vs(5, Some(100))] }],
        calls: vec![DirectCall { channel_id: 500, voice_states: vec![vs(5, Some(500))] }],
    };
    let w = WorldState::from_snapshot(snap);
    assert_eq!(
        w.find_voice_channel_of(5),
        Some(VoiceChannelKey::ServerChannel { server_id: 10, channel_id: 100 })
    );
}

#[test]
fn identity_and_views() {
    let w = world();
    assert_eq!(w.identity(), BOT);
    assert_eq!(w.servers().len(), 2);
    assert_eq!(w.calls().len(), 1);
}

#[test]
fn occupant_counts() {
    let w = world();
    assert_eq!(w.occupant_count(VoiceChannelKey::ServerChannel { server_id: 10, channel_id: 100 }), Some(2));
    assert_eq!(w.occupant_count(VoiceChannelKey::ServerChannel { server_id: 10, channel_id: 101 }), Some(1));
    assert_eq!(w.occupant_count(VoiceChannelKey::ServerChannel { server_id: 30, channel_id: 1 }), None);
    assert_eq!(w.occupant_count(VoiceChannelKey::DirectChannel { channel_id: 500 }), Some(2));
    assert_eq!(w.occupant_count(VoiceChannelKey::DirectChannel { channel_id: 501 }), None);
}

#[test]
fn departure_leaves_bot_alone_disconnects_once() {
    let mut w = world();
    w.update_voice(Some(10), vs(7, None));
    let r = vacate_if_alone(&w, Some(10), Some(100));
    assert_eq!(
        r,
        Some(VoiceAction::Disconnect(VoiceChannelKey::ServerChannel { server_id: 10, channel_id: 100 }))
    );
}

#[test]
fn two_occupants_no_disconnect() {
    let w = world();
    assert_eq!(vacate_if_alone(&w, Some(10), Some(100)), None);
    assert_eq!(vacate_if_alone(&w, None, Some(500)), None);
}

#[test]
fn call_departure_disconnects() {
    let mut w = world();
    w.update_voice(None, vs(11, None));
    assert_eq!(w.occupant_count(VoiceChannelKey::DirectChannel { channel_id: 500 }), Some(1));
    assert_eq!(
        vacate_if_alone(&w, None, Some(500)),
        Some(VoiceAction::Disconnect(VoiceChannelKey::DirectChannel { channel_id: 500 }))
    );
}

#[test]
fn not_in_voice_no_disconnect() {
    let mut w = world();
    w.update_voice(Some(10), vs(7, None));
    assert_eq!(vacate_if_alone(&w, Some(10), None), None);
}

#[test]
fn update_moves_user_between_channels() {
    let mut w = world();
    w.update_voice(Some(10), vs(7, Some(101)));
    assert_eq!(
        w.find_voice_channel_of(7),
        Some(VoiceChannelKey::ServerChannel { server_id: 10, channel_id: 101 })
    );
    assert_eq!(w.occupant_count(VoiceChannelKey::ServerChannel { server_id: 10, channel_id: 101 }), Some(2));
    assert_eq!(w.servers()[0].voice_states.len(), 3);
}

#[test]
fn update_joins_call() {
    let mut w = world();
    w.update_voice(None, vs(12, Some(500)));
    assert_eq!(w.find_voice_channel_of(12), Some(VoiceChannelKey::DirectChannel { channel_id: 500 }));
    assert_eq!(w.occupant_count(VoiceChannelKey::DirectChannel { channel_id: 500 }), Some(3));
}

#[test]
fn update_unknown_server_is_noop() {
    let mut w = world();
    w.update_voice(Some(77), vs(7, None));
    assert_eq!(
        w.find_voice_channel_of(7),
        Some(VoiceChannelKey::ServerChannel { server_id: 10, channel_id: 100 })
    );
}

#[test]
fn stop_targets_requester_channel() {
    let w = world();
    let p = route_message(&w, &message(7, "stop"));
    assert_eq!(
        p,
        Plan::Acknowledge {
            channel_id: 3,
            message_id: 42,
            marker: Marker::Stop,
            action: VoiceAction::Stop(VoiceChannelKey::ServerChannel { server_id: 10, channel_id: 100 }),
        }
    );
}

#[test]
fn stop_is_case_insensitive() {
    let w = world();
    let p = route_message(&w, &message(11, "StOp"));
    assert_eq!(
        p,
        Plan::Acknowledge {
            channel_id: 3,
            message_id: 42,
            marker: Marker::Stop,
            action: VoiceAction::Stop(VoiceChannelKey::DirectChannel { channel_id: 500 }),
        }
    );
}

#[test]
fn quit_and_fuckoff_disconnect() {
    let w = world();
    let key = VoiceChannelKey::ServerChannel { server_id: 10, channel_id: 101 };
    let expected = Plan::Acknowledge {
        channel_id: 3,
        message_id: 42,
        marker: Marker::Quit,
        action: VoiceAction::Disconnect(key),
    };
    assert_eq!(route_message(&w, &message(8, "quit")), expected);
    assert_eq!(route_message(&w, &message(8, "FuckOff")), expected);
}

#[test]
fn play_request_resolves_argument() {
    let w = world();
    let p = route_message(&w, &message(7, "https://x"));
    assert_eq!(
        p,
        Plan::Resolve {
            channel_id: 3,
            message_id: 42,
            key: VoiceChannelKey::ServerChannel { server_id: 10, channel_id: 100 },
            argument: "https://x".to_string(),
        }
    );
}

#[test]
fn play_without_voice_location_gets_guidance() {
    let w = world();
    let p = route_message(&w, &message(99, "https://x"));
    assert_eq!(
        p,
        Plan::Reply { channel_id: 3, text: "You must be in a voice channel to use that command 😉".to_string() }
    );
}

#[test]
fn stop_without_voice_location_gets_guidance() {
    let w = world();
    let p = route_message(&w, &message(99, "stop"));
    assert_eq!(
        p,
        Plan::Reply { channel_id: 3, text: "You must be in a voice channel to use that command 😉".to_string() }
    );
}

#[test]
fn own_message_is_ignored() {
    let w = world();
    assert_eq!(route_message(&w, &message(BOT, "stop")), Plan::Idle);
}

#[test]
fn message_without_tokens_is_ignored() {
    let w = world();
    assert_eq!(route_message(&w, &message(7, "")), Plan::Idle);
    assert_eq!(route_message(&w, &message(7, " \t ")), Plan::Idle);
}

#[test]
fn other_first_token_is_played() {
    let w = world();
    assert_eq!(
        route_message(&w, &message(7, "song extra")),
        Plan::Resolve {
            channel_id: 3,
            message_id: 42,
            key: VoiceChannelKey::ServerChannel { server_id: 10, channel_id: 100 },
            argument: "song".to_string(),
        }
    );
}

#[test]
fn extra_whitespace_between_tokens() {
    let w = world();
    let p = route_message(&w, &message(7, "  \t stop  now"));
    assert!(matches!(p, Plan::Acknowledge { marker: Marker::Stop, .. }));
}

#[test]
fn reacted_message_argument_is_url_token() {
    assert_eq!(play_argument("check this https://y out"), "https://y");
}

#[test]
fn reacted_message_first_url_token() {
    assert_eq!(play_argument("a https://one b https://two"), "https://one");
}

#[test]
fn reacted_single_token_is_whole_content() {
    assert_eq!(play_argument("https://z"), "https://z");
    assert_eq!(play_argument("song"), "song");
}

#[test]
fn reacted_without_url_is_empty() {
    assert_eq!(play_argument("no link here"), "");
}

#[test]
fn trigger_reaction_fetches_message() {
    let w = world();
    let r = Reaction { user_id: 7, channel_id: 3, message_id: 42, emoji: "👆".to_string() };
    assert_eq!(route_reaction(&w, &r), Plan::FetchMessage { channel_id: 3, message_id: 42 });
}

#[test]
fn other_reactions_ignored() {
    let w = world();
    let own = Reaction { user_id: BOT, channel_id: 3, message_id: 42, emoji: "👆".to_string() };
    assert_eq!(route_reaction(&w, &own), Plan::Idle);
    let other = Reaction { user_id: 7, channel_id: 3, message_id: 42, emoji: "👍".to_string() };
    assert_eq!(route_reaction(&w, &other), Plan::Idle);
}

#[test]
fn fetched_message_uses_author_location() {
    let w = world();
    let m = Message { id: 5, channel_id: 4, author_id: 11, content: "check this https://y out".to_string() };
    assert_eq!(
        after_fetch(&w, 4, Some(m)),
        Plan::Resolve {
            channel_id: 4,
            message_id: 5,
            key: VoiceChannelKey::DirectChannel { channel_id: 500 },
            argument: "https://y".to_string(),
        }
    );
}

#[test]
fn fetch_failure_replies() {
    let w = world();
    assert_eq!(after_fetch(&w, 4, None), Plan::Reply { channel_id: 4, text: "Error acquiring message data".to_string() });
}

#[test]
fn fetched_author_without_voice_replies() {
    let w = world();
    let m = Message { id: 5, channel_id: 4, author_id: 99, content: "https://y".to_string() };
    assert_eq!(
        after_fetch(&w, 4, Some(m)),
        Plan::Reply { channel_id: 4, text: "[Error] connecting to voice channel".to_string() }
    );
}

#[test]
fn resolve_outcomes() {
    let key = VoiceChannelKey::DirectChannel { channel_id: 500 };
    assert_eq!(after_resolve(3, 42, key, Ok(())), Plan::Play { channel_id: 3, message_id: 42, key });
    assert_eq!(
        after_resolve(3, 42, key, Err("no such video".to_string())),
        Plan::Reply { channel_id: 3, text: "[Error]: no such video".to_string() }
    );
    assert_eq!(source_error("x"), "[Error]: x");
}

#[test]
fn play_sequence_order() {
    let key = VoiceChannelKey::ServerChannel { server_id: 10, channel_id: 100 };
    assert_eq!(
        play_sequence(key),
        vec![VoiceAction::Connect(key), VoiceAction::SetDeaf(key, true), VoiceAction::Play(key)]
    );
}

#[test]
fn key_construction() {
    assert_eq!(
        VoiceChannelKey::of(Some(10), 100),
        VoiceChannelKey::ServerChannel { server_id: 10, channel_id: 100 }
    );
    assert_eq!(VoiceChannelKey::of(None, 500), VoiceChannelKey::DirectChannel { channel_id: 500 });
    assert_eq!(VoiceChannelKey::of(Some(10), 100).channel_id(), 100);
    assert_eq!(VoiceChannelKey::of(Some(10), 100).server_id(), Some(10));
    assert_eq!(VoiceChannelKey::of(None, 500).server_id(), None);
}

#[test]
fn reconnect_discards_prior_world() {
    let mut s = Session::new();
    assert_eq!(s.phase(), Phase::Disconnected);
    s.connected(sample_snapshot());
    assert_eq!(s.phase(), Phase::Connected);
    assert_eq!(s.on_failure(RecvFailure::TransportDropped), Step::Reconnect);
    assert_eq!(s.phase(), Phase::Reconnecting);
    assert!(s.world().is_none());
    s.connected(Snapshot { user_id: 2, servers: vec![Server { id: 30, voice_states: vec![] }], calls: vec![] });
    let w = s.world().unwrap();
    assert_eq!(w.identity(), 2);
    assert_eq!(w.servers().len(), 1);
    assert_eq!(w.servers()[0].id, 30);
    assert!(w.calls().is_empty());
    assert_eq!(w.find_voice_channel_of(7), None);
}

#[test]
fn failures_other_and_closed() {
    let mut s = Session::new();
    s.connected(sample_snapshot());
    assert_eq!(s.on_failure(RecvFailure::Other), Step::Continue);
    assert_eq!(s.phase(), Phase::Connected);
    assert!(s.world().is_some());
    assert_eq!(s.on_failure(RecvFailure::Closed), Step::Stop);
    assert_eq!(s.phase(), Phase::Closed);
}

#[test]
fn session_dispatches_events() {
    let mut s = Session::new();
    assert_eq!(s.handle_event(Event::Other), Plan::Idle);
    s.connected(sample_snapshot());
    let e = Event::VoiceStateUpdate { server_id: Some(10), state: vs(7, None) };
    assert_eq!(s.handle_event(e), Plan::CheckOccupancy { server_id: Some(10) });
    assert_eq!(s.world().unwrap().find_voice_channel_of(7), None);
    let e = Event::MessageCreate(message(8, "stop"));
    assert!(matches!(s.handle_event(e), Plan::Acknowledge { marker: Marker::Stop, .. }));
    let e = Event::MessageCreate(message(BOT, "stop"));
    assert_eq!(s.handle_event(e), Plan::Idle);
    let e = Event::ReactionAdd(Reaction { user_id: 8, channel_id: 3, message_id: 9, emoji: "👆".to_string() });
    assert_eq!(s.handle_event(e), Plan::FetchMessage { channel_id: 3, message_id: 9 });
    assert_eq!(s.handle_event(Event::Other), Plan::Idle);
}

#[test]
fn text_helpers() {
    let s = "  ab  cd";
    assert_eq!(skip_space_at(s, 0), 2);
    assert_eq!(skip_word_at(s, 2), 4);
    assert!(range_eq_ignore_case(s, 2, 4, "AB"));
    assert!(!range_eq_ignore_case(s, 2, 4, "abc"));
    assert!(range_contains(s, 0, 8, "b  c"));
    assert!(!range_contains(s, 0, 4, "cd"));
}

#[test]
fn server_create_adds_and_replaces() {
    let mut w = world();
    w.update(Event::ServerCreate(Server { id: 30, voice_states: vec![vs(13, Some(300))] }));
    assert_eq!(w.servers().len(), 3);
    assert_eq!(
        w.find_voice_channel_of(13),
        Some(VoiceChannelKey::ServerChannel { server_id: 30, channel_id: 300 })
    );
    w.update(Event::ServerCreate(Server { id: 10, voice_states: vec![vs(14, Some(100))] }));
    assert_eq!(w.servers().len(), 3);
    assert_eq!(w.servers()[0].id, 10);
    assert_eq!(w.find_voice_channel_of(7), None);
    assert_eq!(
        w.find_voice_channel_of(14),
        Some(VoiceChannelKey::ServerChannel { server_id: 10, channel_id: 100 })
    );
}

#[test]
fn server_delete_drops_server() {
    let mut w = world();
    w.update(Event::ServerDelete(10));
    assert_eq!(w.servers().len(), 1);
    assert_eq!(w.servers()[0].id, 20);
    assert_eq!(w.find_voice_channel_of(7), None);
    w.update(Event::ServerDelete(99));
    assert_eq!(w.servers().len(), 1);
}

#[test]
fn call_create_and_delete() {
    let mut w = world();
    w.update(Event::CallCreate(DirectCall { channel_id: 600, voice_states: vec![vs(15, Some(600))] }));
    assert_eq!(w.calls().len(), 2);
    assert_eq!(w.find_voice_channel_of(15), Some(VoiceChannelKey::DirectChannel { channel_id: 600 }));
    w.update(Event::CallCreate(DirectCall { channel_id: 500, voice_states: vec![vs(BOT, Some(500))] }));
    assert_eq!(w.calls().len(), 2);
    assert_eq!(w.occupant_count(VoiceChannelKey::DirectChannel { channel_id: 500 }), Some(1));
    w.update(Event::CallDelete(500));
    assert_eq!(w.calls().len(), 1);
    assert_eq!(w.calls()[0].channel_id, 600);
    assert_eq!(w.occupant_count(VoiceChannelKey::DirectChannel { channel_id: 500 }), None);
}

#[test]
fn ready_replaces_world() {
    let mut w = world();
    w.update(Event::Ready(Snapshot { user_id: 2, servers: vec![], calls: vec![] }));
    assert_eq!(w.identity(), 2);
    assert!(w.servers().is_empty());
    assert!(w.calls().is_empty());
}

#[test]
fn snapshot_keeps_one_entry_per_id() {
    let snap = Snapshot {
        user_id: BOT,
        servers: vec![
            Server { id: 10, voice_states: vec![vs(7, Some(100))] },
            Server { id: 10, voice_states: vec![vs(8, Some(101))] },
        ],
        calls: vec![
            DirectCall { channel_id: 500, voice_states: vec![] },
            DirectCall { channel_id: 500, voice_states: vec![vs(11, Some(500))] },
        ],
    };
    let w = WorldState::from_snapshot(snap);
    assert_eq!(w.servers().len(), 1);
    assert_eq!(w.servers()[0].voice_states, vec![vs(8, Some(101))]);
    assert_eq!(w.calls().len(), 1);
    assert_eq!(w.calls()[0].voice_states, vec![vs(11, Some(500))]);
}

#[test]
fn session_tracks_later_servers_and_calls() {
    let mut s = Session::new();
    s.connected(Snapshot { user_id: BOT, servers: vec![], calls: vec![] });
    assert!(matches!(s.handle_event(Event::MessageCreate(message(7, "stop"))), Plan::Reply { .. }));
    let e = Event::ServerCreate(Server { id: 10, voice_states: vec![vs(BOT, Some(100)), vs(7, Some(100))] });
    assert_eq!(s.handle_event(e), Plan::Idle);
    assert_eq!(
        s.handle_event(Event::MessageCreate(message(7, "stop"))),
        Plan::Acknowledge {
            channel_id: 3,
            message_id: 42,
            marker: Marker::Stop,
            action: VoiceAction::Stop(VoiceChannelKey::ServerChannel { server_id: 10, channel_id: 100 }),
        }
    );
    let e = Event::CallCreate(DirectCall { channel_id: 500, voice_states: vec![vs(BOT, Some(500))] });
    assert_eq!(s.handle_event(e), Plan::Idle);
    assert_eq!(
        vacate_if_alone(s.world().unwrap(), None, Some(500)),
        Some(VoiceAction::Disconnect(VoiceChannelKey::DirectChannel { channel_id: 500 }))
    );
    assert_eq!(s.handle_event(Event::CallDelete(500)), Plan::Idle);
    assert_eq!(s.handle_event(Event::ServerDelete(10)), Plan::Idle);
    assert_eq!(s.world().unwrap().find_voice_channel_of(7), None);
}
