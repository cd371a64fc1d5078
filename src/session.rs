use vstd::prelude::*;
use crate::command::{message_plan, route_message};
use crate::event::{Event, Plan, PlanView};
use crate::reaction::{reaction_plan, route_reaction};
use crate::world::{
    inserted_call, inserted_server, removed_call, removed_server, updated_voice, world_of, Snapshot,
    WorldState, WorldView,
};

verus! {

/// The lifecycle of the gateway connection.
#[derive(Clone, Copy, Debug, PartialEq, Eq, Structural)]
pub enum Phase {
    Disconnected,
    Connected,
    Reconnecting,
    Closed,
}

/// How a receive from the gateway failed.
#[derive(Clone, Copy, Debug, PartialEq, Eq, Structural)]
pub enum RecvFailure {
    /// The connection dropped; a new one is to be made.
    TransportDropped,
    /// The gateway closed the session for good.
    Closed,
    /// Anything else: logged and ignored.
    Other,
}

/// What the event loop does after a failed receive.
#[derive(Clone, Copy, Debug, PartialEq, Eq, Structural)]
pub enum Step {
    Reconnect,
    Stop,
    Continue,
}

/// One connection generation: its phase and the world mirrored from it.
#[derive(Debug)]
pub struct Session {
    phase: Phase,
    world: Option<WorldState>,
}

/// A session as a mathematical value.
pub struct SessionView {
    pub phase: Phase,
    pub world: Option<WorldView>,
}

impl View for Session {
    type V = SessionView;

    closed spec fn view(&self) -> SessionView {
        SessionView {
            phase: self.phase,
            world: match self.world {
                Some(w) => Some(w@),
                None => None,
            },
        }
    }
}

/// The world after an event: voice-state changes are applied, other kinds leave it.
pub open spec fn world_after(w: WorldView, e: Event) -> WorldView {
    match e {
        Event::VoiceStateUpdate { server_id, state } => updated_voice(w, server_id, state),
        Event::ServerCreate(sv) => WorldView { servers: inserted_server(w.servers, sv@), ..w },
        Event::ServerDelete(sid) => WorldView { servers: removed_server(w.servers, sid), ..w },
        Event::CallCreate(cv) => WorldView { calls: inserted_call(w.calls, cv@), ..w },
        Event::CallDelete(c) => WorldView { calls: removed_call(w.calls, c), ..w },
        Event::Ready(snap) => world_of(snap@),
        _ => w,
    }
}

/// The plan an event asks for, against the world already updated by it.
pub open spec fn event_plan(w: WorldView, e: Event) -> PlanView {
    match e {
        Event::MessageCreate(m) => message_plan(w, m),
        Event::ReactionAdd(r) => reaction_plan(w, r),
        Event::VoiceStateUpdate { server_id, .. } => PlanView::CheckOccupancy { server_id },
        _ => PlanView::Idle,
    }
}

/// The session after a failed receive, and the step it asks for.
pub open spec fn failure_outcome(s: SessionView, f: RecvFailure) -> (SessionView, Step) {
    match f {
        RecvFailure::TransportDropped => (SessionView { phase: Phase::Reconnecting, world: None }, Step::Reconnect),
        RecvFailure::Closed => (SessionView { phase: Phase::Closed, ..s }, Step::Stop),
        RecvFailure::Other => (s, Step::Continue),
    }
}

/// The session once a connection and its snapshot are in hand.
pub open spec fn connected_to(snap: WorldView) -> SessionView {
    SessionView { phase: Phase::Connected, world: Some(world_of(snap)) }
}

impl WorldState {
    /// Mirrors one event into the world.
    pub fn update(&mut self, e: Event)
        requires
            old(self).wf(),
        ensures
            final(self).wf(),
            final(self)@ == world_after(old(self)@, e),
    {
        match e {
            Event::VoiceStateUpdate { server_id, state } => self.update_voice(server_id, state),
            Event::ServerCreate(sv) => self.add_server(sv),
            Event::ServerDelete(sid) => self.remove_server(sid),
            Event::CallCreate(cv) => self.add_call(cv),
            Event::CallDelete(c) => self.remove_call(c),
            Event::Ready(snap) => {
                *self = WorldState::from_snapshot(snap);
            },
            _ => {},
        }
    }
}

impl Session {
    /// The world, when there is one, keeps its servers and calls distinct.
    pub closed spec fn wf(&self) -> bool {
        match self.world {
            Some(w) => w.wf(),
            None => true,
        }
    }

    /// A session that has not connected yet.
    pub fn new() -> (r: Session)
        ensures
            r.wf(),
            r@ == (SessionView { phase: Phase::Disconnected, world: None }),
    {
        Session { phase: Phase::Disconnected, world: None }
    }

    /// Where the connection lifecycle stands.
    pub fn phase(&self) -> (r: Phase)
        ensures
            r == self@.phase,
    {
        self.phase
    }

    /// The current world, while connected.
    pub fn world(&self) -> (r: Option<&WorldState>)
        ensures
            r matches Some(w) ==> self@.world == Some(w@),
            r is None ==> self@.world is None,
    {
        match &self.world {
            Some(w) => Some(w),
            None => None,
        }
    }

    /// Takes a fresh connection: the world is the snapshot's and nothing else.
    pub fn connected(&mut self, snapshot: Snapshot)
        ensures
            final(self).wf(),
            final(self)@ == connected_to(snapshot@),
    {
        self.world = Some(WorldState::from_snapshot(snapshot));
        self.phase = Phase::Connected;
    }

    /// Reacts to a failed receive.
    pub fn on_failure(&mut self, f: RecvFailure) -> (r: Step)
        requires
            old(self).wf(),
        ensures
            final(self).wf(),
            (final(self)@, r) == failure_outcome(old(self)@, f),
    {
        match f {
            RecvFailure::TransportDropped => {
                self.world = None;
                self.phase = Phase::Reconnecting;
                Step::Reconnect
            },
            RecvFailure::Closed => {
                self.phase = Phase::Closed;
                Step::Stop
            },
            RecvFailure::Other => Step::Continue,
        }
    }

    /// Mirrors an event into the world, then routes it. Without a world, nothing is done.
    pub fn handle_event(&mut self, e: Event) -> (r: Plan)
        requires
            old(self).wf(),
        ensures
            final(self).wf(),
            final(self)@.phase == old(self)@.phase,
            old(self)@.world matches Some(w) ==> final(self)@.world == Some(world_after(w, e)) && r@
                == event_plan(world_after(w, e), e),
            old(self)@.world is None ==> final(self)@.world is None && r@ == PlanView::Idle,
    {
        match &mut self.world {
            None => Plan::Idle,
            Some(w) => match e {
                Event::MessageCreate(m) => route_message(w, &m),
                Event::ReactionAdd(r) => route_reaction(w, &r),
                Event::VoiceStateUpdate { server_id, state } => {
                    w.update_voice(server_id, state);
                    Plan::CheckOccupancy { server_id }
                },
                Event::ServerCreate(sv) => {
                    w.add_server(sv);
                    Plan::Idle
                },
                Event::ServerDelete(sid) => {
                    w.remove_server(sid);
                    Plan::Idle
                },
                Event::CallCreate(cv) => {
                    w.add_call(cv);
                    Plan::Idle
                },
                Event::CallDelete(c) => {
                    w.remove_call(c);
                    Plan::Idle
                },
                Event::Ready(snap) => {
                    *w = WorldState::from_snapshot(snap);
                    Plan::Idle
                },
                Event::Other => Plan::Idle,
            },
        }
    }
}

/// A reconnect forgets the prior generation: a dropped connection discards the
/// world, and the next connection's world is built from its snapshot and nothing else.
pub proof fn lemma_reconnect_forgets_prior(prior: SessionView, snap: WorldView)
    ensures
        failure_outcome(prior, RecvFailure::TransportDropped).0.world is None,
        failure_outcome(prior, RecvFailure::TransportDropped).1 == Step::Reconnect,
        connected_to(snap).world == Some(world_of(snap)),
        connected_to(snap).phase == Phase::Connected,
{
}

} // verus!
