use vstd::prelude::*;
use crate::key::VoiceChannelKey;

verus! {

/// Where one user stands in voice: a channel, or none.
#[derive(Clone, Copy, Debug, PartialEq, Eq, Structural)]
pub struct VoiceState {
    pub user_id: u64,
    pub channel_id: Option<u64>,
}

/// A server with the voice states of its members.
#[derive(Debug)]
pub struct Server {
    pub id: u64,
    pub voice_states: Vec<VoiceState>,
}

/// A direct call with the voice states of its participants.
#[derive(Debug)]
pub struct DirectCall {
    pub channel_id: u64,
    pub voice_states: Vec<VoiceState>,
}

/// A server as a mathematical value.
pub struct ServerView {
    pub id: u64,
    pub voice_states: Seq<VoiceState>,
}

/// A direct call as a mathematical value.
pub struct CallView {
    pub channel_id: u64,
    pub voice_states: Seq<VoiceState>,
}

impl View for Server {
    type V = ServerView;

    open spec fn view(&self) -> ServerView {
        ServerView { id: self.id, voice_states: self.voice_states@ }
    }
}

impl View for DirectCall {
    type V = CallView;

    open spec fn view(&self) -> CallView {
        CallView { channel_id: self.channel_id, voice_states: self.voice_states@ }
    }
}

/// What the gateway hands over when a connection is established.
#[derive(Debug)]
pub struct Snapshot {
    pub user_id: u64,
    pub servers: Vec<Server>,
    pub calls: Vec<DirectCall>,
}

/// The tracked identity, servers and calls as mathematical values.
pub struct WorldView {
    pub user_id: u64,
    pub servers: Seq<ServerView>,
    pub calls: Seq<CallView>,
}

pub open spec fn servers_view(s: Seq<Server>) -> Seq<ServerView> {
    s.map_values(|x: Server| x@)
}

pub open spec fn calls_view(s: Seq<DirectCall>) -> Seq<CallView> {
    s.map_values(|x: DirectCall| x@)
}

impl View for Snapshot {
    type V = WorldView;

    open spec fn view(&self) -> WorldView {
        WorldView {
            user_id: self.user_id,
            servers: servers_view(self.servers@),
            calls: calls_view(self.calls@),
        }
    }
}

/// The mirror of server, channel and call state for one connection.
#[derive(Debug)]
pub struct WorldState {
    user_id: u64,
    servers: Vec<Server>,
    calls: Vec<DirectCall>,
}

impl View for WorldState {
    type V = WorldView;

    closed spec fn view(&self) -> WorldView {
        WorldView {
            user_id: self.user_id,
            servers: servers_view(self.servers@),
            calls: calls_view(self.calls@),
        }
    }
}

/// The states of `vs` that do not belong to user `u`, in order.
pub open spec fn without_user(vs: Seq<VoiceState>, u: u64) -> Seq<VoiceState>
    decreases vs.len(),
{
    if vs.len() == 0 {
        Seq::empty()
    } else {
        let r = without_user(vs.drop_last(), u);
        if vs.last().user_id == u {
            r
        } else {
            r.push(vs.last())
        }
    }
}

/// A voice-state set after `st` replaced what its user had before.
pub open spec fn replaced(vs: Seq<VoiceState>, st: VoiceState) -> Seq<VoiceState> {
    match st.channel_id {
        Some(_) => without_user(vs, st.user_id).push(st),
        None => without_user(vs, st.user_id),
    }
}

/// The number of states of `vs` in channel `c`.
pub open spec fn count_in(vs: Seq<VoiceState>, c: u64) -> nat
    decreases vs.len(),
{
    if vs.len() == 0 {
        0
    } else {
        count_in(vs.drop_last(), c) + if vs.last().channel_id == Some(c) {
            1nat
        } else {
            0nat
        }
    }
}

/// The index of the first server from `i` on with id `sid`.
pub open spec fn first_server_from(s: Seq<ServerView>, sid: u64, i: int) -> Option<int>
    decreases s.len() - i,
{
    if i < 0 || i >= s.len() {
        None
    } else if s[i].id == sid {
        Some(i)
    } else {
        first_server_from(s, sid, i + 1)
    }
}

/// The index of the first call from `i` on with channel `c`.
pub open spec fn first_call_from(s: Seq<CallView>, c: u64, i: int) -> Option<int>
    decreases s.len() - i,
{
    if i < 0 || i >= s.len() {
        None
    } else if s[i].channel_id == c {
        Some(i)
    } else {
        first_call_from(s, c, i + 1)
    }
}

/// The channel of the first state of `vs` from `j` on that puts `u` in a channel.
pub open spec fn channel_of_from(vs: Seq<VoiceState>, u: u64, j: int) -> Option<u64>
    decreases vs.len() - j,
{
    if j < 0 || j >= vs.len() {
        None
    } else if vs[j].user_id == u && vs[j].channel_id is Some {
        vs[j].channel_id
    } else {
        channel_of_from(vs, u, j + 1)
    }
}

/// Whether some state of `vs` belongs to `u`.
pub open spec fn has_user(vs: Seq<VoiceState>, u: u64) -> bool {
    exists|j: int| 0 <= j < vs.len() && #[trigger] vs[j].user_id == u
}

/// The first server from `i` on where `u` is in a channel, as a key.
pub open spec fn locate_in_servers(s: Seq<ServerView>, u: u64, i: int) -> Option<VoiceChannelKey>
    decreases s.len() - i,
{
    if i < 0 || i >= s.len() {
        None
    } else {
        match channel_of_from(s[i].voice_states, u, 0) {
            Some(c) => Some(VoiceChannelKey::ServerChannel { server_id: s[i].id, channel_id: c }),
            None => locate_in_servers(s, u, i + 1),
        }
    }
}

/// The first call from `i` on that holds a state of `u`, as a key.
pub open spec fn locate_in_calls(s: Seq<CallView>, u: u64, i: int) -> Option<VoiceChannelKey>
    decreases s.len() - i,
{
    if i < 0 || i >= s.len() {
        None
    } else if has_user(s[i].voice_states, u) {
        Some(VoiceChannelKey::DirectChannel { channel_id: s[i].channel_id })
    } else {
        locate_in_calls(s, u, i + 1)
    }
}

/// Where user `u` is in voice: servers in order first, then direct calls.
pub open spec fn locate(w: WorldView, u: u64) -> Option<VoiceChannelKey> {
    match locate_in_servers(w.servers, u, 0) {
        Some(k) => Some(k),
        None => locate_in_calls(w.calls, u, 0),
    }
}

/// Whether the world tracks user `u` in the voice destination `k`.
pub open spec fn location_holds(w: WorldView, k: VoiceChannelKey, u: u64) -> bool {
    match k {
        VoiceChannelKey::ServerChannel { server_id, channel_id } => exists|i: int, j: int|
            0 <= i < w.servers.len() && 0 <= j < w.servers[i].voice_states.len()
                && w.servers[i].id == server_id
                && #[trigger] w.servers[i].voice_states[j] == (VoiceState {
                user_id: u,
                channel_id: Some(channel_id),
            }),
        VoiceChannelKey::DirectChannel { channel_id } => exists|i: int, j: int|
            0 <= i < w.calls.len() && 0 <= j < w.calls[i].voice_states.len()
                && w.calls[i].channel_id == channel_id
                && #[trigger] w.calls[i].voice_states[j].user_id == u,
    }
}

/// How many users are in the destination `k`, if the world tracks it.
pub open spec fn occupants(w: WorldView, k: VoiceChannelKey) -> Option<nat> {
    match k {
        VoiceChannelKey::ServerChannel { server_id, channel_id } => match first_server_from(
            w.servers,
            server_id,
            0,
        ) {
            Some(i) => Some(count_in(w.servers[i].voice_states, channel_id)),
            None => None,
        },
        VoiceChannelKey::DirectChannel { channel_id } => match first_call_from(
            w.calls,
            channel_id,
            0,
        ) {
            Some(i) => Some(w.calls[i].voice_states.len()),
            None => None,
        },
    }
}

/// No two servers share an id.
pub open spec fn servers_distinct(ss: Seq<ServerView>) -> bool {
    forall|a: int, b: int| 0 <= a < b < ss.len() ==> #[trigger] ss[a].id != #[trigger] ss[b].id
}

/// No two calls share a channel id.
pub open spec fn calls_distinct(cs: Seq<CallView>) -> bool {
    forall|a: int, b: int|
        0 <= a < b < cs.len() ==> #[trigger] cs[a].channel_id != #[trigger] cs[b].channel_id
}

/// The servers once `sv` arrived: it replaces the server with its id, else is appended.
pub open spec fn inserted_server(ss: Seq<ServerView>, sv: ServerView) -> Seq<ServerView> {
    match first_server_from(ss, sv.id, 0) {
        Some(i) => ss.update(i, sv),
        None => ss.push(sv),
    }
}

/// The servers without the one with id `sid`.
pub open spec fn removed_server(ss: Seq<ServerView>, sid: u64) -> Seq<ServerView> {
    match first_server_from(ss, sid, 0) {
        Some(i) => ss.remove(i),
        None => ss,
    }
}

/// The calls once `cv` was created: it replaces the call on its channel, else is appended.
pub open spec fn inserted_call(cs: Seq<CallView>, cv: CallView) -> Seq<CallView> {
    match first_call_from(cs, cv.channel_id, 0) {
        Some(i) => cs.update(i, cv),
        None => cs.push(cv),
    }
}

/// The calls without the one on channel `c`.
pub open spec fn removed_call(cs: Seq<CallView>, c: u64) -> Seq<CallView> {
    match first_call_from(cs, c, 0) {
        Some(i) => cs.remove(i),
        None => cs,
    }
}

/// The servers of a snapshot inserted one by one, in order.
pub open spec fn servers_from(s: Seq<ServerView>) -> Seq<ServerView>
    decreases s.len(),
{
    if s.len() == 0 {
        Seq::empty()
    } else {
        inserted_server(servers_from(s.drop_last()), s.last())
    }
}

/// The calls of a snapshot inserted one by one, in order.
pub open spec fn calls_from(s: Seq<CallView>) -> Seq<CallView>
    decreases s.len(),
{
    if s.len() == 0 {
        Seq::empty()
    } else {
        inserted_call(calls_from(s.drop_last()), s.last())
    }
}

/// The world that a snapshot describes, one entry per server id and per call.
pub open spec fn world_of(snap: WorldView) -> WorldView {
    WorldView {
        user_id: snap.user_id,
        servers: servers_from(snap.servers),
        calls: calls_from(snap.calls),
    }
}

/// The calls with every state of user `u` taken out.
pub open spec fn strip_calls(calls: Seq<CallView>, u: u64) -> Seq<CallView> {
    calls.map_values(
        |c: CallView| CallView { channel_id: c.channel_id, voice_states: without_user(c.voice_states, u) },
    )
}

/// The world after a voice-state change of `st`, scoped to `server_id` or to the calls.
pub open spec fn updated_voice(w: WorldView, server_id: Option<u64>, st: VoiceState) -> WorldView {
    match server_id {
        Some(sid) => match first_server_from(w.servers, sid, 0) {
            Some(i) => WorldView {
                servers: w.servers.update(
                    i,
                    ServerView { id: sid, voice_states: replaced(w.servers[i].voice_states, st) },
                ),
                ..w
            },
            None => w,
        },
        None => {
            let stripped = strip_calls(w.calls, st.user_id);
            let calls = match st.channel_id {
                Some(c) => match first_call_from(stripped, c, 0) {
                    Some(i) => stripped.update(
                        i,
                        CallView {
                            channel_id: c,
                            voice_states: stripped[i].voice_states.push(st),
                        },
                    ),
                    None => stripped,
                },
                None => stripped,
            };
            WorldView { calls, ..w }
        },
    }
}

proof fn lemma_first_server(s: Seq<ServerView>, sid: u64, i: int)
    requires
        0 <= i,
    ensures
        first_server_from(s, sid, i) matches Some(k) ==> i <= k < s.len() && s[k].id == sid
            && forall|m: int| i <= m < k ==> s[m].id != sid,
        first_server_from(s, sid, i) is None ==> forall|m: int| i <= m < s.len() ==> s[m].id != sid,
    decreases s.len() - i,
{
    if i < s.len() && s[i].id != sid {
        lemma_first_server(s, sid, i + 1);
    }
}

proof fn lemma_first_call(s: Seq<CallView>, c: u64, i: int)
    requires
        0 <= i,
    ensures
        first_call_from(s, c, i) matches Some(k) ==> i <= k < s.len() && s[k].channel_id == c
            && forall|m: int| i <= m < k ==> s[m].channel_id != c,
        first_call_from(s, c, i) is None ==> forall|m: int| i <= m < s.len() ==> s[m].channel_id != c,
    decreases s.len() - i,
{
    if i < s.len() && s[i].channel_id != c {
        lemma_first_call(s, c, i + 1);
    }
}

proof fn lemma_channel_of(vs: Seq<VoiceState>, u: u64, j: int)
    requires
        0 <= j,
    ensures
        channel_of_from(vs, u, j) matches Some(c) ==> exists|x: int|
            j <= x < vs.len() && #[trigger] vs[x] == (VoiceState { user_id: u, channel_id: Some(c) }),
        channel_of_from(vs, u, j) is None ==> forall|x: int|
            j <= x < vs.len() ==> !(#[trigger] vs[x].user_id == u && vs[x].channel_id is Some),
    decreases vs.len() - j,
{
    if j < vs.len() {
        lemma_channel_of(vs, u, j + 1);
        if vs[j].user_id == u && vs[j].channel_id is Some {
            assert(vs[j] == VoiceState { user_id: u, channel_id: vs[j].channel_id });
        }
    }
}

proof fn lemma_locate_in_servers(s: Seq<ServerView>, u: u64, i: int)
    requires
        0 <= i,
    ensures
        locate_in_servers(s, u, i) matches Some(k) ==> location_holds(
            WorldView { user_id: 0, servers: s, calls: Seq::empty() },
            k,
            u,
        ),
        locate_in_servers(s, u, i) is None ==> forall|x: int, y: int|
            i <= x < s.len() && 0 <= y < s[x].voice_states.len() ==> !(
            #[trigger] s[x].voice_states[y].user_id == u && s[x].voice_states[y].channel_id is Some),
    decreases s.len() - i,
{
    if i < s.len() {
        lemma_channel_of(s[i].voice_states, u, 0);
        lemma_locate_in_servers(s, u, i + 1);
        match channel_of_from(s[i].voice_states, u, 0) {
            Some(c) => {
                let x = choose|x: int|
                    0 <= x < s[i].voice_states.len() && #[trigger] s[i].voice_states[x] == (VoiceState {
                        user_id: u,
                        channel_id: Some(c),
                    });
                let w = WorldView { user_id: 0, servers: s, calls: Seq::empty() };
                assert(w.servers[i].voice_states[x] == VoiceState { user_id: u, channel_id: Some(c) });
            },
            None => {},
        }
    }
}

proof fn lemma_locate_in_calls(s: Seq<CallView>, u: u64, i: int)
    requires
        0 <= i,
    ensures
        locate_in_calls(s, u, i) matches Some(k) ==> location_holds(
            WorldView { user_id: 0, servers: Seq::empty(), calls: s },
            k,
            u,
        ),
        locate_in_calls(s, u, i) is None ==> forall|x: int, y: int|
            i <= x < s.len() && 0 <= y < s[x].voice_states.len() ==> #[trigger] s[x].voice_states[y].user_id != u,
    decreases s.len() - i,
{
    if i < s.len() {
        lemma_locate_in_calls(s, u, i + 1);
        if has_user(s[i].voice_states, u) {
            let y = choose|y: int| 0 <= y < s[i].voice_states.len() && #[trigger] s[i].voice_states[y].user_id == u;
            let w = WorldView { user_id: 0, servers: Seq::empty(), calls: s };
            assert(w.calls[i].voice_states[y].user_id == u);
        }
    }
}

/// The voice lookup finds the one destination that holds a user, and nothing for
/// a user whom no tracked destination holds.
pub proof fn lemma_find_voice_channel_unique(w: WorldView, u: u64)
    ensures
        forall|k: VoiceChannelKey|
            location_holds(w, k, u) && (forall|k2: VoiceChannelKey|
                #[trigger] location_holds(w, k2, u) ==> k2 == k) ==> locate(w, u) == Some(k),
        (forall|k: VoiceChannelKey| !#[trigger] location_holds(w, k, u)) ==> locate(w, u) is None,
{
    lemma_locate_in_servers(w.servers, u, 0);
    lemma_locate_in_calls(w.calls, u, 0);
    let ws = WorldView { user_id: 0, servers: w.servers, calls: Seq::empty() };
    let wc = WorldView { user_id: 0, servers: Seq::empty(), calls: w.calls };
    match locate(w, u) {
        Some(k) => {
            match locate_in_servers(w.servers, u, 0) {
                Some(_) => {
                    assert(location_holds(ws, k, u));
                    assert(location_holds(w, k, u));
                },
                None => {
                    assert(location_holds(wc, k, u));
                    assert(location_holds(w, k, u));
                },
            }
        },
        None => {
            assert forall|k: VoiceChannelKey| !location_holds(w, k, u) by {
                match k {
                    VoiceChannelKey::ServerChannel { server_id, channel_id } => {
                        if location_holds(w, k, u) {
                            let (x, y) = choose|x: int, y: int|
                                0 <= x < w.servers.len() && 0 <= y < w.servers[x].voice_states.len()
                                    && w.servers[x].id == server_id
                                    && #[trigger] w.servers[x].voice_states[y] == (VoiceState {
                                    user_id: u,
                                    channel_id: Some(channel_id),
                                });
                            assert(w.servers[x].voice_states[y].user_id == u);
                        }
                    },
                    VoiceChannelKey::DirectChannel { channel_id } => {},
                }
            }
        },
    }
}

proof fn lemma_inserted_server(ss: Seq<ServerView>, sv: ServerView)
    requires
        servers_distinct(ss),
    ensures
        servers_distinct(inserted_server(ss, sv)),
{
    lemma_first_server(ss, sv.id, 0);
}

proof fn lemma_removed_server(ss: Seq<ServerView>, sid: u64)
    requires
        servers_distinct(ss),
    ensures
        servers_distinct(removed_server(ss, sid)),
{
    lemma_first_server(ss, sid, 0);
    if let Some(i) = first_server_from(ss, sid, 0) {
        let r = ss.remove(i);
        assert forall|a: int, b: int| 0 <= a < b < r.len() implies #[trigger] r[a].id != #[trigger] r[b].id by {
            let a2 = if a < i { a } else { a + 1 };
            let b2 = if b < i { b } else { b + 1 };
            assert(r[a] == ss[a2] && r[b] == ss[b2]);
            assert(ss[a2].id != ss[b2].id);
        }
    }
}

proof fn lemma_inserted_call(cs: Seq<CallView>, cv: CallView)
    requires
        calls_distinct(cs),
    ensures
        calls_distinct(inserted_call(cs, cv)),
{
    lemma_first_call(cs, cv.channel_id, 0);
}

proof fn lemma_removed_call(cs: Seq<CallView>, c: u64)
    requires
        calls_distinct(cs),
    ensures
        calls_distinct(removed_call(cs, c)),
{
    lemma_first_call(cs, c, 0);
    if let Some(i) = first_call_from(cs, c, 0) {
        let r = cs.remove(i);
        assert forall|a: int, b: int|
            0 <= a < b < r.len() implies #[trigger] r[a].channel_id != #[trigger] r[b].channel_id by {
            let a2 = if a < i { a } else { a + 1 };
            let b2 = if b < i { b } else { b + 1 };
            assert(r[a] == cs[a2] && r[b] == cs[b2]);
            assert(cs[a2].channel_id != cs[b2].channel_id);
        }
    }
}

/// A voice-state change keeps every server id and call channel in place.
proof fn lemma_updated_voice_keeps_ids(w: WorldView, server_id: Option<u64>, st: VoiceState)
    ensures
        updated_voice(w, server_id, st).servers.len() == w.servers.len(),
        updated_voice(w, server_id, st).calls.len() == w.calls.len(),
        forall|k: int| 0 <= k < w.servers.len() ==> #[trigger] updated_voice(w, server_id, st).servers[k].id == w.servers[k].id,
        forall|k: int| 0 <= k < w.calls.len() ==> #[trigger] updated_voice(w, server_id, st).calls[k].channel_id == w.calls[k].channel_id,
{
    match server_id {
        Some(sid) => {
            lemma_first_server(w.servers, sid, 0);
        },
        None => {
            let stripped = strip_calls(w.calls, st.user_id);
            if let Some(c) = st.channel_id {
                lemma_first_call(stripped, c, 0);
            }
        },
    }
}

/// The states of `vs` without those of user `u`.
fn strip_user(vs: &Vec<VoiceState>, u: u64) -> (r: Vec<VoiceState>)
    ensures
        r@ == without_user(vs@, u),
{
    let mut out: Vec<VoiceState> = Vec::new();
    let mut i: usize = 0;
    while i < vs.len()
        invariant
            i <= vs.len(),
            out@ == without_user(vs@.take(i as int), u),
        decreases vs.len() - i,
    {
        assert(vs@.take(i as int + 1).drop_last() == vs@.take(i as int));
        let st = vs[i];
        if st.user_id != u {
            out.push(st);
        }
        i = i + 1;
    }
    assert(vs@.take(vs.len() as int) == vs@);
    out
}

/// The number of states of `vs` in channel `c`.
fn count_channel(vs: &Vec<VoiceState>, c: u64) -> (r: usize)
    ensures
        r == count_in(vs@, c),
{
    let mut n: usize = 0;
    let mut i: usize = 0;
    while i < vs.len()
        invariant
            i <= vs.len(),
            n <= i,
            n == count_in(vs@.take(i as int), c),
        decreases vs.len() - i,
    {
        assert(vs@.take(i as int + 1).drop_last() == vs@.take(i as int));
        if vs[i].channel_id == Some(c) {
            n = n + 1;
        }
        i = i + 1;
    }
    assert(vs@.take(vs.len() as int) == vs@);
    n
}

/// The channel of the first state of `vs` that puts `u` in a channel.
fn channel_of(vs: &Vec<VoiceState>, u: u64) -> (r: Option<u64>)
    ensures
        r == channel_of_from(vs@, u, 0),
{
    let mut j: usize = 0;
    while j < vs.len()
        invariant
            j <= vs.len(),
            channel_of_from(vs@, u, 0) == channel_of_from(vs@, u, j as int),
        decreases vs.len() - j,
    {
        let st = vs[j];
        if st.user_id == u && st.channel_id.is_some() {
            return st.channel_id;
        }
        j = j + 1;
    }
    None
}

/// Whether some state of `vs` belongs to `u`.
fn holds_user(vs: &Vec<VoiceState>, u: u64) -> (r: bool)
    ensures
        r == has_user(vs@, u),
{
    let mut j: usize = 0;
    while j < vs.len()
        invariant
            j <= vs.len(),
            forall|k: int| 0 <= k < j ==> vs@[k].user_id != u,
        decreases vs.len() - j,
    {
        if vs[j].user_id == u {
            return true;
        }
        j = j + 1;
    }
    false
}

/// The index of the first server with id `sid`.
fn find_server(servers: &Vec<Server>, sid: u64) -> (r: Option<usize>)
    ensures
        r matches Some(i) ==> first_server_from(servers_view(servers@), sid, 0) == Some(i as int),
        r is None ==> first_server_from(servers_view(servers@), sid, 0) is None,
{
    let ghost s = servers_view(servers@);
    let mut i: usize = 0;
    while i < servers.len()
        invariant
            i <= servers.len(),
            s == servers_view(servers@),
            first_server_from(s, sid, 0) == first_server_from(s, sid, i as int),
        decreases servers.len() - i,
    {
        if servers[i].id == sid {
            return Some(i);
        }
        i = i + 1;
    }
    None
}

/// The index of the first call on channel `c`.
fn find_call(calls: &Vec<DirectCall>, c: u64) -> (r: Option<usize>)
    ensures
        r matches Some(i) ==> first_call_from(calls_view(calls@), c, 0) == Some(i as int),
        r is None ==> first_call_from(calls_view(calls@), c, 0) is None,
{
    let ghost s = calls_view(calls@);
    let mut i: usize = 0;
    while i < calls.len()
        invariant
            i <= calls.len(),
            s == calls_view(calls@),
            first_call_from(s, c, 0) == first_call_from(s, c, i as int),
        decreases calls.len() - i,
    {
        if calls[i].channel_id == c {
            return Some(i);
        }
        i = i + 1;
    }
    None
}

impl WorldState {
    /// No two tracked servers share an id, and no two calls a channel.
    pub open spec fn wf(&self) -> bool {
        servers_distinct(self@.servers) && calls_distinct(self@.calls)
    }

    /// A world built from a connection's snapshot alone.
    pub fn from_snapshot(snapshot: Snapshot) -> (r: WorldState)
        ensures
            r.wf(),
            r@ == world_of(snapshot@),
    {
        let ghost snap = snapshot@;
        let Snapshot { user_id, mut servers, mut calls } = snapshot;
        let mut w = WorldState { user_id, servers: Vec::new(), calls: Vec::new() };
        let ghost all = servers_view(servers@);
        let ghost mut k: int = 0;
        assert(all.take(0) =~= Seq::<ServerView>::empty());
        while servers.len() > 0
            invariant
                0 <= k <= all.len(),
                servers_view(servers@) == all.skip(k),
                w.wf(),
                w@.servers == servers_from(all.take(k)),
                w@.calls.len() == 0,
                w@.user_id == user_id,
            decreases servers.len(),
        {
            assert(servers_view(servers@).len() == servers@.len());
            assert(all.skip(k).len() == all.len() - k);
            assert(servers_view(servers@)[0] == servers@[0]@);
            assert(servers_view(servers@)[0] == all[k]);
            let ghost before = servers@;
            let sv = servers.remove(0);
            w.add_server(sv);
            assert(all.take(k + 1).drop_last() =~= all.take(k));
            proof {
                k = k + 1;
            }
            assert forall|j: int| 0 <= j < servers@.len() implies #[trigger] servers_view(servers@)[j] == all.skip(k)[j] by {
                assert(servers@[j] == before[j + 1]);
                assert(servers_view(before)[j + 1] == before[j + 1]@);
            }
            assert(servers_view(servers@) =~= all.skip(k));
        }
        assert(all.take(k) =~= all);
        let ghost cs = calls_view(calls@);
        let ghost mut q: int = 0;
        assert(cs.take(0) =~= Seq::<CallView>::empty());
        while calls.len() > 0
            invariant
                0 <= q <= cs.len(),
                calls_view(calls@) == cs.skip(q),
                w.wf(),
                w@.servers == servers_from(all),
                w@.calls == calls_from(cs.take(q)),
                w@.user_id == user_id,
            decreases calls.len(),
        {
            assert(calls_view(calls@).len() == calls@.len());
            assert(cs.skip(q).len() == cs.len() - q);
            assert(calls_view(calls@)[0] == calls@[0]@);
            assert(calls_view(calls@)[0] == cs[q]);
            let ghost before = calls@;
            let cv = calls.remove(0);
            w.add_call(cv);
            assert(cs.take(q + 1).drop_last() =~= cs.take(q));
            proof {
                q = q + 1;
            }
            assert forall|j: int| 0 <= j < calls@.len() implies #[trigger] calls_view(calls@)[j] == cs.skip(q)[j] by {
                assert(calls@[j] == before[j + 1]);
                assert(calls_view(before)[j + 1] == before[j + 1]@);
            }
            assert(calls_view(calls@) =~= cs.skip(q));
        }
        assert(cs.take(q) =~= cs);
        w
    }

    /// A server arrived: it replaces the server with its id, else is appended.
    pub fn add_server(&mut self, sv: Server)
        requires
            old(self).wf(),
        ensures
            final(self).wf(),
            final(self)@ == (WorldView { servers: inserted_server(old(self)@.servers, sv@), ..old(self)@ }),
    {
        proof {
            lemma_inserted_server(self@.servers, sv@);
            lemma_first_server(self@.servers, sv.id, 0);
        }
        let ghost sv_view = sv@;
        match find_server(&self.servers, sv.id) {
            Some(i) => {
                self.servers.set(i, sv);
            },
            None => {
                self.servers.push(sv);
            },
        }
        assert(self@.servers =~= inserted_server(old(self)@.servers, sv_view));
    }

    /// A server went away: it is dropped.
    pub fn remove_server(&mut self, sid: u64)
        requires
            old(self).wf(),
        ensures
            final(self).wf(),
            final(self)@ == (WorldView { servers: removed_server(old(self)@.servers, sid), ..old(self)@ }),
    {
        proof {
            lemma_removed_server(self@.servers, sid);
            lemma_first_server(self@.servers, sid, 0);
        }
        match find_server(&self.servers, sid) {
            Some(i) => {
                self.servers.remove(i);
            },
            None => {},
        }
        assert(self@.servers =~= removed_server(old(self)@.servers, sid));
    }

    /// A call was created: it replaces the call on its channel, else is appended.
    pub fn add_call(&mut self, cv: DirectCall)
        requires
            old(self).wf(),
        ensures
            final(self).wf(),
            final(self)@ == (WorldView { calls: inserted_call(old(self)@.calls, cv@), ..old(self)@ }),
    {
        proof {
            lemma_inserted_call(self@.calls, cv@);
            lemma_first_call(self@.calls, cv.channel_id, 0);
        }
        let ghost cv_view = cv@;
        match find_call(&self.calls, cv.channel_id) {
            Some(i) => {
                self.calls.set(i, cv);
            },
            None => {
                self.calls.push(cv);
            },
        }
        assert(self@.calls =~= inserted_call(old(self)@.calls, cv_view));
    }

    /// A call ended: it is dropped.
    pub fn remove_call(&mut self, c: u64)
        requires
            old(self).wf(),
        ensures
            final(self).wf(),
            final(self)@ == (WorldView { calls: removed_call(old(self)@.calls, c), ..old(self)@ }),
    {
        proof {
            lemma_removed_call(self@.calls, c);
            lemma_first_call(self@.calls, c, 0);
        }
        match find_call(&self.calls, c) {
            Some(i) => {
                self.calls.remove(i);
            },
            None => {},
        }
        assert(self@.calls =~= removed_call(old(self)@.calls, c));
    }

    /// The bot's own user id.
    pub fn identity(&self) -> (r: u64)
        ensures
            r == self@.user_id,
    {
        self.user_id
    }

    /// The tracked servers, in snapshot order.
    pub fn servers(&self) -> (r: &Vec<Server>)
        ensures
            servers_view(r@) == self@.servers,
    {
        &self.servers
    }

    /// The tracked direct calls.
    pub fn calls(&self) -> (r: &Vec<DirectCall>)
        ensures
            calls_view(r@) == self@.calls,
    {
        &self.calls
    }

    /// The voice destination of user `u`: servers in order first, then direct calls.
    pub fn find_voice_channel_of(&self, u: u64) -> (r: Option<VoiceChannelKey>)
        ensures
            r == locate(self@, u),
    {
        let ghost w = self@;
        let mut i: usize = 0;
        while i < self.servers.len()
            invariant
                i <= self.servers.len(),
                w == self@,
                locate_in_servers(w.servers, u, 0) == locate_in_servers(w.servers, u, i as int),
            decreases self.servers.len() - i,
        {
            let srv = &self.servers[i];
            match channel_of(&srv.voice_states, u) {
                Some(c) => {
                    return Some(VoiceChannelKey::ServerChannel { server_id: srv.id, channel_id: c });
                },
                None => {},
            }
            i = i + 1;
        }
        let mut j: usize = 0;
        while j < self.calls.len()
            invariant
                j <= self.calls.len(),
                w == self@,
                locate_in_servers(w.servers, u, 0) is None,
                locate_in_calls(w.calls, u, 0) == locate_in_calls(w.calls, u, j as int),
            decreases self.calls.len() - j,
        {
            let call = &self.calls[j];
            if holds_user(&call.voice_states, u) {
                return Some(VoiceChannelKey::DirectChannel { channel_id: call.channel_id });
            }
            j = j + 1;
        }
        None
    }

    /// How many users are in destination `k`, read from the current state.
    pub fn occupant_count(&self, k: VoiceChannelKey) -> (r: Option<usize>)
        ensures
            r matches Some(n) ==> occupants(self@, k) == Some(n as nat),
            r is None ==> occupants(self@, k) is None,
    {
        match k {
            VoiceChannelKey::ServerChannel { server_id, channel_id } => {
                proof {
                    lemma_first_server(self@.servers, server_id, 0);
                }
                match find_server(&self.servers, server_id) {
                    Some(i) => Some(count_channel(&self.servers[i].voice_states, channel_id)),
                    None => None,
                }
            },
            VoiceChannelKey::DirectChannel { channel_id } => {
                proof {
                    lemma_first_call(self@.calls, channel_id, 0);
                }
                match find_call(&self.calls, channel_id) {
                    Some(i) => Some(self.calls[i].voice_states.len()),
                    None => None,
                }
            },
        }
    }

    /// Applies a voice-state change of `st`, scoped to `server_id` or, with none, to the calls.
    pub fn update_voice(&mut self, server_id: Option<u64>, st: VoiceState)
        requires
            old(self).wf(),
        ensures
            final(self).wf(),
            final(self)@ == updated_voice(old(self)@, server_id, st),
    {
        let ghost w = self@;
        proof {
            lemma_updated_voice_keeps_ids(w, server_id, st);
        }
        match server_id {
            Some(sid) => {
                proof {
                    lemma_first_server(w.servers, sid, 0);
                }
                match find_server(&self.servers, sid) {
                    Some(i) => {
                        let mut v = strip_user(&self.servers[i].voice_states, st.user_id);
                        if st.channel_id.is_some() {
                            v.push(st);
                        }
                        self.servers.set(i, Server { id: sid, voice_states: v });
                        assert(self@.servers =~= updated_voice(w, server_id, st).servers);
                    },
                    None => {},
                }
            },
            None => {
                let ghost stripped = strip_calls(w.calls, st.user_id);
                let ghost target = updated_voice(w, None, st).calls;
                let ghost idx: Option<int> = match st.channel_id {
                    Some(c) => first_call_from(stripped, c, 0),
                    None => None,
                };
                proof {
                    if let Some(c) = st.channel_id {
                        lemma_first_call(stripped, c, 0);
                    }
                }
                let mut pushed = false;
                let mut i: usize = 0;
                while i < self.calls.len()
                    invariant
                        i <= self.calls.len(),
                        self.calls.len() == w.calls.len(),
                        stripped.len() == w.calls.len(),
                        target.len() == w.calls.len(),
                        self.user_id == w.user_id,
                        self.servers == old(self).servers,
                        w == old(self)@,
                        stripped == strip_calls(w.calls, st.user_id),
                        target == updated_voice(w, None, st).calls,
                        idx == (match st.channel_id {
                            Some(c) => first_call_from(stripped, c, 0),
                            None => None,
                        }),
                        idx matches Some(x) ==> (pushed <==> x < i),
                        idx is None ==> !pushed,
                        !pushed ==> (st.channel_id matches Some(c) ==> first_call_from(stripped, c, 0)
                            == first_call_from(stripped, c, i as int)),
                        forall|k: int| 0 <= k < i ==> (#[trigger] self.calls@[k])@ == target[k],
                        forall|k: int| i <= k < w.calls.len() ==> (#[trigger] self.calls@[k])@ == w.calls[k],
                    decreases self.calls.len() - i,
                {
                    let cid = self.calls[i].channel_id;
                    let mut v = strip_user(&self.calls[i].voice_states, st.user_id);
                    proof {
                        assert(stripped[i as int].channel_id == cid);
                        assert(stripped[i as int].voice_states == without_user(
                            w.calls[i as int].voice_states,
                            st.user_id,
                        ));
                        if let Some(c) = st.channel_id {
                            assert(first_call_from(stripped, c, i as int) == if cid == c {
                                Some(i as int)
                            } else {
                                first_call_from(stripped, c, i as int + 1)
                            });
                            lemma_first_call(stripped, c, i as int + 1);
                        }
                    }
                    if !pushed && st.channel_id == Some(cid) {
                        v.push(st);
                        pushed = true;
                    }
                    self.calls.set(i, DirectCall { channel_id: cid, voice_states: v });
                    proof {
                        match st.channel_id {
                            Some(c) => {
                                lemma_first_call(stripped, c, 0);
                                if idx == Some(i as int) {
                                    assert(target[i as int] == CallView {
                                        channel_id: c,
                                        voice_states: stripped[i as int].voice_states.push(st),
                                    });
                                } else {
                                    assert(target[i as int] == stripped[i as int]);
                                }
                            },
                            None => {
                                assert(target[i as int] == stripped[i as int]);
                            },
                        }
                    }
                    assert(self.calls@[i as int]@ == target[i as int]);
                    i = i + 1;
                }
                assert(self@.calls =~= target);
                assert(self@ == updated_voice(w, None, st));
            },
        }
    }
}

} // verus!
