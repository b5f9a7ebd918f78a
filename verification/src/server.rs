//! The accept loop's lifecycle: admission under a bound on the connections
//! in flight, and draining on shutdown.
//!
//! The loop itself belongs to the caller, who owns the listening socket and
//! the task runtime. It asks [`ServerLoop`] what to do, does it, and reports
//! what happened as a [`ServerEvent`]. The decisions are made here: a
//! connection is accepted only while a slot is free, nothing is accepted once
//! shutdown has begun, and the loop stops only when every handler it started
//! has finished.

use vstd::prelude::*;

verus! {

/// Where the accept loop stands.
#[derive(Clone, Copy, Debug, PartialEq, Eq, Structural)]
pub enum Phase {
    /// New connections are admitted while a slot is free.
    Accepting,
    /// No connection is admitted any more; handlers in flight run to their end.
    Draining,
    /// Every handler has finished. Nothing changes from here on.
    Stopped,
}

/// What happened outside since the loop last asked.
#[derive(Clone, Copy, Debug, PartialEq, Eq, Structural)]
pub enum ServerEvent {
    /// A connection was accepted and handed to a new handler.
    Accepted,
    /// The listening socket failed for a reason other than shutdown.
    AcceptFailed,
    /// The shutdown signal was observed.
    Cancelled,
    /// A handler finished, with or without a response, and gave its slot back.
    HandlerFinished,
}

/// What the loop has to do next.
#[derive(Clone, Copy, Debug, PartialEq, Eq, Structural)]
pub enum ServerAction {
    /// Wait for a connection or for the shutdown signal, whichever is first.
    Accept,
    /// Every slot is taken: wait for a handler to finish or for the shutdown
    /// signal. Connections stay queued at the socket meanwhile.
    AwaitSlot,
    /// Wait for a handler to finish.
    Drain,
    /// Return: nothing is in flight.
    Stop,
}

/// The state of the loop as a mathematical value.
pub struct LoopModel {
    /// The most connections that may be in flight at once.
    pub max_connections: nat,
    /// The handlers started and not yet finished. Each holds one slot.
    pub in_flight: nat,
    /// Where the loop stands.
    pub phase: Phase,
    /// Whether the listening socket failed.
    pub accept_failed: bool,
}

impl LoopModel {
    /// The state before anything happened.
    pub open spec fn initial(max_connections: nat) -> LoopModel {
        LoopModel { max_connections, in_flight: 0, phase: Phase::Accepting, accept_failed: false }
    }

    /// What holds of every state: the bound on the handlers in flight, and that
    /// a loop has stopped exactly when it accepts no more and has none.
    pub open spec fn wf(self) -> bool {
        &&& self.in_flight <= self.max_connections
        &&& self.phase == Phase::Stopped ==> self.in_flight == 0
        &&& self.phase == Phase::Draining ==> self.in_flight > 0
        &&& self.accept_failed ==> self.phase != Phase::Accepting
    }

    /// Whether `event` adds a handler in this state.
    pub open spec fn admits(self, event: ServerEvent) -> bool {
        &&& event == ServerEvent::Accepted
        &&& self.phase == Phase::Accepting
        &&& self.in_flight < self.max_connections
    }

    /// Whether `event` takes a handler away in this state.
    pub open spec fn releases(self, event: ServerEvent) -> bool {
        &&& event == ServerEvent::HandlerFinished
        &&& self.in_flight > 0
    }

    /// A draining loop with nothing in flight has stopped.
    pub open spec fn settled(self) -> LoopModel {
        if self.phase == Phase::Draining && self.in_flight == 0 {
            LoopModel { phase: Phase::Stopped, ..self }
        } else {
            self
        }
    }

    /// The state after `event`. An event that does not fit the state leaves it
    /// as it is.
    pub open spec fn next(self, event: ServerEvent) -> LoopModel {
        match event {
            ServerEvent::Accepted => {
                if self.admits(event) {
                    LoopModel { in_flight: self.in_flight + 1, ..self }
                } else {
                    self
                }
            },
            ServerEvent::AcceptFailed => {
                if self.phase == Phase::Accepting {
                    LoopModel { phase: Phase::Draining, accept_failed: true, ..self }.settled()
                } else {
                    self
                }
            },
            ServerEvent::Cancelled => {
                if self.phase == Phase::Accepting {
                    LoopModel { phase: Phase::Draining, ..self }.settled()
                } else {
                    self
                }
            },
            ServerEvent::HandlerFinished => {
                if self.releases(event) {
                    LoopModel { in_flight: (self.in_flight - 1) as nat, ..self }.settled()
                } else {
                    self
                }
            },
        }
    }

    /// What the loop has to do in this state.
    pub open spec fn action(self) -> ServerAction {
        match self.phase {
            Phase::Accepting => {
                if self.in_flight < self.max_connections {
                    ServerAction::Accept
                } else {
                    ServerAction::AwaitSlot
                }
            },
            Phase::Draining => ServerAction::Drain,
            Phase::Stopped => ServerAction::Stop,
        }
    }

    /// The state after the events of `events`, in their order.
    pub open spec fn run(self, events: Seq<ServerEvent>) -> LoopModel
        decreases events.len(),
    {
        if events.len() == 0 {
            self
        } else {
            self.run(events.drop_last()).next(events.last())
        }
    }

    /// How many handlers the events of `events` start, from this state on.
    pub open spec fn admitted(self, events: Seq<ServerEvent>) -> nat
        decreases events.len(),
    {
        if events.len() == 0 {
            0
        } else {
            let before = self.run(events.drop_last());
            let one: nat = if before.admits(events.last()) {
                1
            } else {
                0
            };
            self.admitted(events.drop_last()) + one
        }
    }

    /// How many handlers the events of `events` see finish, from this state on.
    pub open spec fn finished(self, events: Seq<ServerEvent>) -> nat
        decreases events.len(),
    {
        if events.len() == 0 {
            0
        } else {
            let before = self.run(events.drop_last());
            let one: nat = if before.releases(events.last()) {
                1
            } else {
                0
            };
            self.finished(events.drop_last()) + one
        }
    }
}

/// The accept loop's state: the pool of connection slots, the handlers in
/// flight, and whether shutdown has begun.
#[derive(Clone, Copy, Debug, PartialEq, Eq)]
pub struct ServerLoop {
    max_connections: usize,
    in_flight: usize,
    phase: Phase,
    accept_failed: bool,
}

impl View for ServerLoop {
    type V = LoopModel;

    closed spec fn view(&self) -> LoopModel {
        LoopModel {
            max_connections: self.max_connections as nat,
            in_flight: self.in_flight as nat,
            phase: self.phase,
            accept_failed: self.accept_failed,
        }
    }
}

impl ServerLoop {
    #[verifier::type_invariant]
    spec fn inv(self) -> bool {
        self@.wf()
    }

    /// A loop that has accepted nothing yet, with `max_connections` slots.
    pub fn new(max_connections: usize) -> (server: ServerLoop)
        ensures
            server@ == LoopModel::initial(max_connections as nat),
            server@.wf(),
    {
        ServerLoop { max_connections, in_flight: 0, phase: Phase::Accepting, accept_failed: false }
    }

    /// What the loop has to do now.
    pub fn action(&self) -> (action: ServerAction)
        ensures
            action == self@.action(),
            self@.wf(),
    {
        proof {
            use_type_invariant(self);
        }
        match self.phase {
            Phase::Accepting => {
                if self.in_flight < self.max_connections {
                    ServerAction::Accept
                } else {
                    ServerAction::AwaitSlot
                }
            },
            Phase::Draining => ServerAction::Drain,
            Phase::Stopped => ServerAction::Stop,
        }
    }

    /// Takes in what happened and says what to do next. An event that does
    /// not fit the state changes nothing, and the answer is what was to be
    /// done before.
    pub fn step(&mut self, event: ServerEvent) -> (action: ServerAction)
        ensures
            final(self)@ == old(self)@.next(event),
            final(self)@.wf(),
            action == final(self)@.action(),
    {
        proof {
            use_type_invariant(&*self);
        }
        let max_connections: usize = self.max_connections;
        let mut in_flight: usize = self.in_flight;
        let mut phase: Phase = self.phase;
        let mut accept_failed: bool = self.accept_failed;
        match event {
            ServerEvent::Accepted => {
                if phase == Phase::Accepting && in_flight < max_connections {
                    in_flight = in_flight + 1;
                }
            },
            ServerEvent::AcceptFailed => {
                if phase == Phase::Accepting {
                    phase = Phase::Draining;
                    accept_failed = true;
                }
            },
            ServerEvent::Cancelled => {
                if phase == Phase::Accepting {
                    phase = Phase::Draining;
                }
            },
            ServerEvent::HandlerFinished => {
                if in_flight > 0 {
                    in_flight = in_flight - 1;
                }
            },
        }
        if phase == Phase::Draining && in_flight == 0 {
            phase = Phase::Stopped;
        }
        *self = ServerLoop { max_connections, in_flight, phase, accept_failed };
        self.action()
    }

    /// The number of slots in all.
    pub fn max_connections(&self) -> (max: usize)
        ensures
            max == self@.max_connections,
    {
        self.max_connections
    }

    /// The number of handlers started and not yet finished, never more than
    /// the number of slots.
    pub fn in_flight(&self) -> (count: usize)
        ensures
            count == self@.in_flight,
            count <= self@.max_connections,
    {
        proof {
            use_type_invariant(self);
        }
        self.in_flight
    }

    /// Where the loop stands.
    pub fn phase(&self) -> (phase: Phase)
        ensures
            phase == self@.phase,
    {
        self.phase
    }

    /// Whether the loop came to its end because the listening socket failed.
    pub fn accept_failed(&self) -> (failed: bool)
        ensures
            failed == self@.accept_failed,
    {
        self.accept_failed
    }
}

/// One event keeps a state well-formed.
pub proof fn lemma_next_keeps_wf(state: LoopModel, event: ServerEvent)
    requires
        state.wf(),
    ensures
        state.next(event).wf(),
        state.next(event).max_connections == state.max_connections,
{
}

/// The bound on concurrency: whatever happens, in whatever order, the
/// handlers in flight never outnumber the slots, and a stopped loop has none.
pub proof fn lemma_bound_holds_throughout(state: LoopModel, events: Seq<ServerEvent>)
    requires
        state.wf(),
    ensures
        state.run(events).wf(),
        state.run(events).in_flight <= state.max_connections,
        state.run(events).max_connections == state.max_connections,
    decreases events.len(),
{
    if events.len() > 0 {
        lemma_bound_holds_throughout(state, events.drop_last());
        lemma_next_keeps_wf(state.run(events.drop_last()), events.last());
    }
}

/// A full pool delays, it does not refuse: with every slot taken the loop
/// waits, the connection offered is not counted, and as soon as one handler
/// finishes the loop accepts again.
pub proof fn lemma_saturation_delays(state: LoopModel)
    requires
        state.wf(),
        state.phase == Phase::Accepting,
        state.in_flight == state.max_connections,
    ensures
        state.action() == ServerAction::AwaitSlot,
        state.next(ServerEvent::Accepted) == state,
        state.max_connections > 0 ==> state.next(ServerEvent::HandlerFinished).action()
            == ServerAction::Accept,
{
}

/// The handlers in flight are those started less those finished.
pub proof fn lemma_in_flight_accounting(state: LoopModel, events: Seq<ServerEvent>)
    requires
        state.wf(),
    ensures
        state.run(events).in_flight + state.finished(events) == state.in_flight + state.admitted(
            events,
        ),
    decreases events.len(),
{
    if events.len() > 0 {
        lemma_in_flight_accounting(state, events.drop_last());
        lemma_bound_holds_throughout(state, events.drop_last());
    }
}

/// Shutdown drains: the loop stops only when every handler that was in flight
/// or was started since has finished.
pub proof fn lemma_stop_means_drained(state: LoopModel, events: Seq<ServerEvent>)
    requires
        state.wf(),
        state.run(events).action() == ServerAction::Stop,
    ensures
        state.run(events).in_flight == 0,
        state.finished(events) == state.in_flight + state.admitted(events),
{
    lemma_in_flight_accounting(state, events);
    lemma_bound_holds_throughout(state, events);
}

/// Once shutdown has begun nothing is admitted any more, and the loop never
/// goes back to accepting.
pub proof fn lemma_no_admission_after_shutdown(state: LoopModel, events: Seq<ServerEvent>)
    requires
        state.wf(),
        state.phase != Phase::Accepting,
    ensures
        state.run(events).phase != Phase::Accepting,
        state.admitted(events) == 0,
        state.run(events).in_flight <= state.in_flight,
    decreases events.len(),
{
    if events.len() > 0 {
        lemma_no_admission_after_shutdown(state, events.drop_last());
    }
}

/// Cancellation while `state.in_flight` handlers are at work: the loop drains
/// at once, and stops exactly when that many handlers have been seen to
/// finish, not before.
pub proof fn lemma_cancellation_waits_for_all(state: LoopModel, events: Seq<ServerEvent>)
    requires
        state.wf(),
        state.phase == Phase::Accepting,
    ensures
        state.next(ServerEvent::Cancelled).phase != Phase::Accepting,
        state.next(ServerEvent::Cancelled).in_flight == state.in_flight,
        state.next(ServerEvent::Cancelled).run(events).action() == ServerAction::Stop
            <==> state.next(ServerEvent::Cancelled).finished(events) == state.in_flight,
{
    let draining = state.next(ServerEvent::Cancelled);
    lemma_next_keeps_wf(state, ServerEvent::Cancelled);
    lemma_no_admission_after_shutdown(draining, events);
    lemma_in_flight_accounting(draining, events);
    lemma_bound_holds_throughout(draining, events);
    lemma_draining_stops_when_empty(draining, events);
}

/// A loop that no longer accepts has stopped exactly when nothing is in
/// flight.
pub proof fn lemma_draining_stops_when_empty(state: LoopModel, events: Seq<ServerEvent>)
    requires
        state.wf(),
        state.phase != Phase::Accepting,
    ensures
        state.run(events).phase == Phase::Stopped <==> state.run(events).in_flight == 0,
    decreases events.len(),
{
    if events.len() > 0 {
        lemma_draining_stops_when_empty(state, events.drop_last());
        lemma_no_admission_after_shutdown(state, events.drop_last());
        lemma_bound_holds_throughout(state, events.drop_last());
    }
}

} // verus!
