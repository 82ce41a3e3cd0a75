use vstd::prelude::*;


verus! {

/// Where a pipeline stage is in its life.
#[derive(Debug, Clone, Copy, PartialEq, Eq, Structural)]
pub enum Phase {
    Idle,
    Running,
    Draining,
    Stopped,
}

/// What a stage does when a read or a write fails.
#[derive(Debug, Clone, Copy, PartialEq, Eq, Structural)]
pub enum ErrorPolicy {
    /// Count the failure and go on with the next batch.
    BestEffort,
    /// Stop the stage.
    FailStage,
}

/// What a stage learns.
#[derive(Debug, Clone, Copy, PartialEq, Eq, Structural)]
pub enum Event {
    Started,
    ShutdownObserved,
    ReadOk,
    ReadFailed,
    WriteOk,
    WriteFailed,
}

/// What a stage asks to be done next.
#[derive(Debug, Clone, Copy, PartialEq, Eq, Structural)]
pub enum Action {
    /// Read the next batch from the source.
    Read,
    /// Write the batch just read to the sink.
    Write,
    /// Release the stage's resources; the stage has stopped.
    Release,
    /// Nothing to start: wait for the next event.
    Wait,
}

/// The state of one pipeline stage. At most one batch is in flight: a read is
/// asked for only once the previous batch's write has completed.
#[derive(Debug, Clone, Copy, PartialEq, Eq, Structural)]
pub struct StageState {
    pub phase: Phase,
    pub policy: ErrorPolicy,
    /// A batch has been read and its write has not completed.
    pub in_flight: bool,
    /// Batches read.
    pub reads: u64,
    pub read_failures: u64,
    pub writes_ok: u64,
    pub writes_failed: u64,
}

pub open spec fn inc(n: u64) -> u64 {
    if n < u64::MAX {
        (n + 1) as u64
    } else {
        n
    }
}

/// A state that the transitions can reach: a batch is in flight only while
/// running or draining, and always while draining.
pub open spec fn wf(s: StageState) -> bool {
    &&& (s.phase == Phase::Draining ==> s.in_flight)
    &&& (s.phase == Phase::Idle || s.phase == Phase::Stopped ==> !s.in_flight)
}

pub open spec fn stopped(s: StageState) -> (StageState, Action) {
    (StageState { phase: Phase::Stopped, in_flight: false, ..s }, Action::Release)
}

/// The transition of a stage on an event: the next state and the action it
/// asks for. Events that make no sense in a state change nothing.
pub open spec fn next(s: StageState, ev: Event) -> (StageState, Action) {
    match s.phase {
        Phase::Idle => match ev {
            Event::Started => (StageState { phase: Phase::Running, ..s }, Action::Read),
            Event::ShutdownObserved => stopped(s),
            _ => (s, Action::Wait),
        },
        Phase::Running => match ev {
            Event::ShutdownObserved => if s.in_flight {
                (StageState { phase: Phase::Draining, ..s }, Action::Wait)
            } else {
                stopped(s)
            },
            Event::ReadOk => if s.in_flight {
                (s, Action::Wait)
            } else {
                (StageState { in_flight: true, reads: inc(s.reads), ..s }, Action::Write)
            },
            Event::ReadFailed => if s.in_flight {
                (s, Action::Wait)
            } else {
                let t = StageState { read_failures: inc(s.read_failures), ..s };
                if s.policy == ErrorPolicy::BestEffort {
                    (t, Action::Read)
                } else {
                    stopped(t)
                }
            },
            Event::WriteOk => if s.in_flight {
                (StageState { in_flight: false, writes_ok: inc(s.writes_ok), ..s }, Action::Read)
            } else {
                (s, Action::Wait)
            },
            Event::WriteFailed => if s.in_flight {
                let t = StageState { in_flight: false, writes_failed: inc(s.writes_failed), ..s };
                if s.policy == ErrorPolicy::BestEffort {
                    (t, Action::Read)
                } else {
                    stopped(t)
                }
            } else {
                (s, Action::Wait)
            },
            Event::Started => (s, Action::Wait),
        },
        Phase::Draining => match ev {
            Event::WriteOk => stopped(StageState { writes_ok: inc(s.writes_ok), ..s }),
            Event::WriteFailed => stopped(StageState { writes_failed: inc(s.writes_failed), ..s }),
            _ => (s, Action::Wait),
        },
        Phase::Stopped => (s, Action::Wait),
    }
}

fn bump(n: u64) -> (r: u64)
    ensures
        r == inc(n),
{
    if n < u64::MAX {
        n + 1
    } else {
        n
    }
}

impl StageState {
    pub open spec fn new_spec(policy: ErrorPolicy) -> StageState {
        StageState {
            phase: Phase::Idle,
            policy,
            in_flight: false,
            reads: 0,
            read_failures: 0,
            writes_ok: 0,
            writes_failed: 0,
        }
    }

    /// A stage that has not started, with the given failure policy.
    pub fn new(policy: ErrorPolicy) -> (r: StageState)
        ensures
            r == StageState::new_spec(policy),
    {
        StageState {
            phase: Phase::Idle,
            policy,
            in_flight: false,
            reads: 0,
            read_failures: 0,
            writes_ok: 0,
            writes_failed: 0,
        }
    }

    /// Feeds one event to the stage and returns the action it asks for.
    pub fn step(&mut self, ev: Event) -> (a: Action)
        ensures
            (*final(self), a) == next(*old(self), ev),
    {
        let s = *self;
        let (t, a) = match s.phase {
            Phase::Idle => match ev {
                Event::Started => (StageState { phase: Phase::Running, ..s }, Action::Read),
                Event::ShutdownObserved => (
                    StageState { phase: Phase::Stopped, in_flight: false, ..s },
                    Action::Release,
                ),
                _ => (s, Action::Wait),
            },
            Phase::Running => match ev {
                Event::ShutdownObserved => {
                    if s.in_flight {
                        (StageState { phase: Phase::Draining, ..s }, Action::Wait)
                    } else {
                        (StageState { phase: Phase::Stopped, in_flight: false, ..s }, Action::Release)
                    }
                },
                Event::ReadOk => {
                    if s.in_flight {
                        (s, Action::Wait)
                    } else {
                        (StageState { in_flight: true, reads: bump(s.reads), ..s }, Action::Write)
                    }
                },
                Event::ReadFailed => {
                    if s.in_flight {
                        (s, Action::Wait)
                    } else {
                        let t = StageState { read_failures: bump(s.read_failures), ..s };
                        if s.policy == ErrorPolicy::BestEffort {
                            (t, Action::Read)
                        } else {
                            (StageState { phase: Phase::Stopped, in_flight: false, ..t }, Action::Release)
                        }
                    }
                },
                Event::WriteOk => {
                    if s.in_flight {
                        (
                            StageState { in_flight: false, writes_ok: bump(s.writes_ok), ..s },
                            Action::Read,
                        )
                    } else {
                        (s, Action::Wait)
                    }
                },
                Event::WriteFailed => {
                    if s.in_flight {
                        let t = StageState {
                            in_flight: false,
                            writes_failed: bump(s.writes_failed),
                            ..s
                        };
                        if s.policy == ErrorPolicy::BestEffort {
                            (t, Action::Read)
                        } else {
                            (StageState { phase: Phase::Stopped, in_flight: false, ..t }, Action::Release)
                        }
                    } else {
                        (s, Action::Wait)
                    }
                },
                Event::Started => (s, Action::Wait),
            },
            Phase::Draining => match ev {
                Event::WriteOk => (
                    StageState {
                        phase: Phase::Stopped,
                        in_flight: false,
                        writes_ok: bump(s.writes_ok),
                        ..s
                    },
                    Action::Release,
                ),
                Event::WriteFailed => (
                    StageState {
                        phase: Phase::Stopped,
                        in_flight: false,
                        writes_failed: bump(s.writes_failed),
                        ..s
                    },
                    Action::Release,
                ),
                _ => (s, Action::Wait),
            },
            Phase::Stopped => (s, Action::Wait),
        };
        *self = t;
        a
    }
}

/// Every transition keeps a state well formed.
pub proof fn lemma_next_wf(s: StageState, ev: Event)
    requires
        wf(s),
    ensures
        wf(next(s, ev).0),
{
}

/// Once the shutdown signal has been observed, no read is asked for: a stage
/// that observes it goes to draining (a write is in flight) or stops, and a
/// draining or stopped stage never asks for a read nor runs again.
pub proof fn lemma_no_read_after_shutdown(s: StageState, ev: Event)
    requires
        wf(s),
    ensures
        s.phase != Phase::Idle ==> (next(s, Event::ShutdownObserved).0.phase == Phase::Draining
            || next(s, Event::ShutdownObserved).0.phase == Phase::Stopped),
        next(s, Event::ShutdownObserved).1 != Action::Read,
        s.phase == Phase::Draining || s.phase == Phase::Stopped ==> next(s, ev).1 != Action::Read
            && (next(s, ev).0.phase == Phase::Draining || next(s, ev).0.phase == Phase::Stopped),
{
}

/// A stage that observes the shutdown signal stops within one batch
/// boundary: at once if no batch is in flight, else when the in-flight write
/// completes, successfully or not.
pub proof fn lemma_stops_within_one_batch(s: StageState, done: Event)
    requires
        wf(s),
        s.phase == Phase::Running,
        done == Event::WriteOk || done == Event::WriteFailed,
    ensures
        !s.in_flight ==> next(s, Event::ShutdownObserved) == stopped(s),
        s.in_flight ==> next(next(s, Event::ShutdownObserved).0, done).0.phase == Phase::Stopped,
        s.in_flight ==> next(next(s, Event::ShutdownObserved).0, done).1 == Action::Release,
{
}

/// Backpressure: a read is asked for only when no batch is in flight, and a
/// write only for a batch that is.
pub proof fn lemma_single_batch_in_flight(s: StageState, ev: Event)
    requires
        wf(s),
    ensures
        next(s, ev).1 == Action::Read ==> !next(s, ev).0.in_flight,
        next(s, ev).1 == Action::Write ==> !s.in_flight && next(s, ev).0.in_flight,
{
}

} // verus!
