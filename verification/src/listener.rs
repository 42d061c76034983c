//! The accept loop of one listener, as a function from state and event to
//! state and action.
//!
//! A listener serves at most `max_clients` connections at once. It takes a
//! permit before it accepts; the permit passes to the task that serves the
//! accepted connection and comes back when that task ends. An accept that
//! would block gives its permit back; any other accept error ends the
//! listener, while the connections in flight run on.

use vstd::prelude::*;

verus! {

/// What the accept loop is doing.
#[derive(Debug, Clone, Copy, PartialEq, Eq, Structural)]
pub enum Phase {
    /// No permit is held: the loop waits for one.
    Waiting,
    /// A permit is held and an accept is under way.
    Accepting,
    /// The listener has ended.
    Stopped,
}

/// What happened outside.
#[derive(Debug, Clone, Copy, PartialEq, Eq, Structural)]
pub enum AcceptEvent {
    /// The loop was started or woken.
    Ready,
    /// A connection was accepted.
    Accepted,
    /// The accept would have blocked.
    WouldBlock,
    /// The accept failed for good.
    AcceptFailed,
    /// A task that served a connection has ended, with or without error.
    Finished,
}

/// What the loop does next.
#[derive(Debug, Clone, Copy, PartialEq, Eq, Structural)]
pub enum Next {
    /// Call accept.
    Accept,
    /// Wait until a task has ended.
    Wait,
    /// Go on with what is under way.
    Continue,
    /// Give the listener up with the accept error.
    Stop,
}

/// What the caller is to do: whether to start a task for the connection
/// just accepted, and how the loop goes on.
#[derive(Debug, Clone, Copy, PartialEq, Eq, Structural)]
pub struct AcceptAction {
    pub spawn: bool,
    pub next: Next,
}

/// The state of one listener's accept loop.
#[derive(Debug, Clone, Copy, PartialEq, Eq, Structural)]
pub struct AcceptLoop {
    /// The number of permits.
    pub max_clients: usize,
    /// The number of connection tasks that have not ended.
    pub in_flight: usize,
    pub phase: Phase,
}

/// The state after the permit of the loop, if it held one, is settled and
/// the loop asks for a permit again.
pub open spec fn reacquire(max_clients: usize, in_flight: usize) -> Phase {
    if in_flight < max_clients {
        Phase::Accepting
    } else {
        Phase::Waiting
    }
}

/// The action that goes with a phase the loop has just entered.
pub open spec fn next_of(phase: Phase) -> Next {
    match phase {
        Phase::Accepting => Next::Accept,
        Phase::Waiting => Next::Wait,
        Phase::Stopped => Next::Stop,
    }
}

impl AcceptLoop {
    /// The invariant of the loop: the tasks in flight, together with the
    /// permit that an accept under way holds, never exceed the permits.
    pub open spec fn wf(&self) -> bool {
        &&& self.max_clients > 0
        &&& self.taken() <= self.max_clients
    }

    /// The state after `event`.
    pub open spec fn after(&self, event: AcceptEvent) -> AcceptLoop {
        match (self.phase, event) {
            (_, AcceptEvent::Finished) => {
                let left = if self.in_flight > 0 {
                    (self.in_flight - 1) as usize
                } else {
                    0
                };
                AcceptLoop {
                    max_clients: self.max_clients,
                    in_flight: left,
                    phase: if self.phase == Phase::Waiting {
                        reacquire(self.max_clients, left)
                    } else {
                        self.phase
                    },
                }
            },
            (Phase::Stopped, _) => *self,
            (Phase::Waiting, _) => AcceptLoop {
                max_clients: self.max_clients,
                in_flight: self.in_flight,
                phase: reacquire(self.max_clients, self.in_flight),
            },
            (Phase::Accepting, AcceptEvent::Accepted) => {
                let more = if self.in_flight < self.max_clients {
                    (self.in_flight + 1) as usize
                } else {
                    self.in_flight
                };
                AcceptLoop {
                    max_clients: self.max_clients,
                    in_flight: more,
                    phase: reacquire(self.max_clients, more),
                }
            },
            (Phase::Accepting, AcceptEvent::AcceptFailed) => AcceptLoop {
                max_clients: self.max_clients,
                in_flight: self.in_flight,
                phase: Phase::Stopped,
            },
            (Phase::Accepting, _) => AcceptLoop {
                max_clients: self.max_clients,
                in_flight: self.in_flight,
                phase: reacquire(self.max_clients, self.in_flight),
            },
        }
    }

    /// What the caller is told to do on `event`.
    pub open spec fn action_on(&self, event: AcceptEvent) -> AcceptAction {
        AcceptAction {
            spawn: self.phase == Phase::Accepting && event == AcceptEvent::Accepted
                && self.in_flight < self.max_clients,
            next: if event == AcceptEvent::Finished && self.phase != Phase::Waiting {
                if self.phase == Phase::Stopped {
                    Next::Stop
                } else {
                    Next::Continue
                }
            } else {
                next_of(self.after(event).phase)
            },
        }
    }

    /// The state after the events `events`, one after the other.
    pub open spec fn after_all(&self, events: Seq<AcceptEvent>) -> AcceptLoop
        decreases events.len(),
    {
        if events.len() == 0 {
            *self
        } else {
            self.after_all(events.drop_last()).after(events.last())
        }
    }

    /// A loop for a listener with `max_clients` permits, before its first
    /// event. There is no loop without a permit: it could never accept.
    pub fn new(max_clients: usize) -> (r: Option<AcceptLoop>)
        ensures
            max_clients == 0 <==> r.is_none(),
            r matches Some(l) ==> l.wf() && l.max_clients == max_clients && l.in_flight == 0
                && l.phase == Phase::Waiting,
    {
        if max_clients == 0 {
            None
        } else {
            Some(AcceptLoop { max_clients, in_flight: 0, phase: Phase::Waiting })
        }
    }

    /// Takes `event` in and says what to do next.
    pub fn step(&mut self, event: AcceptEvent) -> (action: AcceptAction)
        ensures
            old(self).wf() ==> final(self).wf(),
            *final(self) == old(self).after(event),
            action == old(self).action_on(event),
    {
        let was: Phase = self.phase;
        match event {
            AcceptEvent::Finished => {
                if self.in_flight > 0 {
                    self.in_flight = self.in_flight - 1;
                }
                match was {
                    Phase::Waiting => {
                        self.phase = self.fresh_phase();
                        AcceptAction { spawn: false, next: phase_action(self.phase) }
                    },
                    Phase::Accepting => AcceptAction { spawn: false, next: Next::Continue },
                    Phase::Stopped => AcceptAction { spawn: false, next: Next::Stop },
                }
            },
            _ => match was {
                Phase::Stopped => AcceptAction { spawn: false, next: Next::Stop },
                Phase::Waiting => {
                    self.phase = self.fresh_phase();
                    AcceptAction { spawn: false, next: phase_action(self.phase) }
                },
                Phase::Accepting => match event {
                    AcceptEvent::Accepted => {
                        let permitted: bool = self.in_flight < self.max_clients;
                        if permitted {
                            self.in_flight = self.in_flight + 1;
                        }
                        self.phase = self.fresh_phase();
                        AcceptAction { spawn: permitted, next: phase_action(self.phase) }
                    },
                    AcceptEvent::AcceptFailed => {
                        self.phase = Phase::Stopped;
                        AcceptAction { spawn: false, next: Next::Stop }
                    },
                    _ => {
                        self.phase = self.fresh_phase();
                        AcceptAction { spawn: false, next: phase_action(self.phase) }
                    },
                },
            },
        }
    }

    fn fresh_phase(&self) -> (p: Phase)
        ensures
            p == reacquire(self.max_clients, self.in_flight),
    {
        if self.in_flight < self.max_clients {
            Phase::Accepting
        } else {
            Phase::Waiting
        }
    }

    /// The permits that are taken: one for each task in flight, and one
    /// for an accept under way.
    pub open spec fn taken(&self) -> int {
        self.in_flight + (if self.phase == Phase::Accepting {
            1int
        } else {
            0int
        })
    }

    /// The number of permits that are free.
    pub fn available(&self) -> (n: usize)
        ensures
            self.taken() <= self.max_clients ==> n == self.max_clients - self.taken(),
            self.taken() > self.max_clients ==> n == 0,
    {
        let held: usize = match self.phase {
            Phase::Accepting => 1,
            _ => 0,
        };
        if self.in_flight >= self.max_clients {
            0
        } else if self.max_clients - self.in_flight < held {
            0
        } else {
            self.max_clients - self.in_flight - held
        }
    }
}

fn phase_action(phase: Phase) -> (n: Next)
    ensures
        n == next_of(phase),
{
    match phase {
        Phase::Accepting => Next::Accept,
        Phase::Waiting => Next::Wait,
        Phase::Stopped => Next::Stop,
    }
}

/// Whatever happens, in whatever order, a listener never has more
/// connection tasks in flight than it has permits; and a task is started
/// only for a connection that was accepted under a permit.
pub proof fn lemma_in_flight_bounded(start: AcceptLoop, events: Seq<AcceptEvent>)
    requires
        start.wf(),
    ensures
        start.after_all(events).wf(),
        start.after_all(events).in_flight <= start.max_clients,
        start.after_all(events).max_clients == start.max_clients,
    decreases events.len(),
{
    if events.len() > 0 {
        lemma_in_flight_bounded(start, events.drop_last());
    }
}

/// An accept that would block costs no permit: the loop accepts again and
/// the tasks in flight are as before.
pub proof fn lemma_would_block_keeps_permit(l: AcceptLoop)
    requires
        l.wf(),
        l.phase == Phase::Accepting,
    ensures
        l.after(AcceptEvent::WouldBlock) == l,
        l.action_on(AcceptEvent::WouldBlock) == (AcceptAction { spawn: false, next: Next::Accept }),
{
}

} // verus!
