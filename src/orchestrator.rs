use vstd::prelude::*;

use crate::stage::{wf, ErrorPolicy, Event, Phase, StageState};
use crate::transform::{run_steps, Processor, Transform};

verus! {

/// Where a stage's records come from.
pub trait Source {
    /// The batches this source has handed out so far, oldest first.
    open spec fn emitted(&self) -> Seq<Seq<String>> {
        Seq::empty()
    }

    /// The next batch of records, or what went wrong.
    fn read(&mut self) -> (r: Result<Vec<String>, String>)
        ensures
            match r {
                Ok(b) => final(self).emitted() == old(self).emitted().push(b@),
                Err(_) => final(self).emitted() == old(self).emitted(),
            },
    ;
}

/// Where a stage's records go.
pub trait Sink {
    /// The batches this sink has accepted so far, oldest first.
    open spec fn written(&self) -> Seq<Seq<String>> {
        Seq::empty()
    }

    /// Writes one batch of records.
    fn write(&mut self, records: Vec<String>) -> (r: Result<(), String>)
        ensures
            match r {
                Ok(()) => final(self).written() == old(self).written().push(records@),
                Err(_) => final(self).written() == old(self).written(),
            },
    ;
}

/// What the steps make of each of the batches, in order.
pub open spec fn delivered<P: Processor>(steps: Seq<P>, batches: Seq<Seq<String>>) -> Seq<
    Seq<String>,
> {
    batches.map_values(|b: Seq<String>| run_steps(steps, b))
}

impl StageState {
    /// Runs one batch of the stage, from one batch boundary to the next.
    ///
    /// With `shutdown`, the stage observes the shutdown signal and stops
    /// without reading. Otherwise a stage that has not stopped (starting it
    /// if it is idle) reads one batch, runs it through `transform` and writes
    /// the result to `sink`; read and write failures are counted and handled
    /// by the stage's policy.
    pub fn run_cycle<S: Source, K: Sink, P: Processor>(
        &mut self,
        source: &mut S,
        sink: &mut K,
        transform: &Transform<P>,
        shutdown: bool,
    )
        requires
            wf(*old(self)),
            !old(self).in_flight,
            !shutdown ==> old(self).reads < u64::MAX && old(self).read_failures < u64::MAX
                && old(self).writes_ok < u64::MAX && old(self).writes_failed < u64::MAX,
        ensures
            wf(*final(self)),
            !final(self).in_flight,
            final(self).policy == old(self).policy,
            shutdown ==> final(self).phase == Phase::Stopped,
            shutdown || old(self).phase == Phase::Stopped ==> final(self).reads == old(self).reads
                && final(self).read_failures == old(self).read_failures && final(self).writes_ok
                == old(self).writes_ok && final(self).writes_failed == old(self).writes_failed,
            !shutdown && old(self).phase == Phase::Stopped ==> *final(self) == *old(self),
            final(self).reads >= old(self).reads,
            final(self).read_failures >= old(self).read_failures,
            final(self).writes_ok >= old(self).writes_ok,
            final(self).writes_failed >= old(self).writes_failed,
            final(self).reads == old(self).reads ==> final(source).emitted() == old(
                source,
            ).emitted(),
            final(self).reads == old(self).reads + 1 ==> final(source).emitted().len() > 0
                && final(source).emitted() == old(source).emitted().push(
                final(source).emitted().last(),
            ),
            final(self).writes_ok == old(self).writes_ok ==> final(sink).written() == old(
                sink,
            ).written(),
            final(self).writes_ok == old(self).writes_ok + 1 ==> final(sink).written() == old(
                sink,
            ).written().push(run_steps(transform.steps(), final(source).emitted().last())),
            !shutdown && old(self).phase != Phase::Stopped ==> {
                &&& final(self).reads + final(self).read_failures == old(self).reads + old(
                    self,
                ).read_failures + 1
                &&& final(self).writes_ok + final(self).writes_failed - old(self).writes_ok - old(
                    self,
                ).writes_failed == final(self).reads - old(self).reads
                &&& (final(self).phase == Phase::Running || (final(self).phase == Phase::Stopped
                    && final(self).policy == ErrorPolicy::FailStage))
            },
    {
        if shutdown {
            self.step(Event::ShutdownObserved);
            return;
        }
        if self.phase == Phase::Idle {
            self.step(Event::Started);
        }
        if self.phase == Phase::Running {
            match source.read() {
                Ok(batch) => {
                    self.step(Event::ReadOk);
                    let out = transform.execute(batch);
                    match sink.write(out) {
                        Ok(()) => {
                            self.step(Event::WriteOk);
                        },
                        Err(_) => {
                            self.step(Event::WriteFailed);
                        },
                    }
                },
                Err(_) => {
                    self.step(Event::ReadFailed);
                },
            }
        }
    }
}

/// Runs a stage for `cycles` batches, then delivers the shutdown signal.
/// Every batch read is written exactly once, one batch at a time, and the
/// stage ends stopped. The sink accepts one batch per successful write; when
/// no write failed, it has accepted every batch read, run through the
/// transform steps, in the order the source emitted them.
pub fn run_stage<S: Source, K: Sink, P: Processor>(
    source: &mut S,
    sink: &mut K,
    transform: &Transform<P>,
    policy: ErrorPolicy,
    cycles: u64,
) -> (r: StageState)
    ensures
        r.phase == Phase::Stopped,
        r.policy == policy,
        r.writes_ok + r.writes_failed == r.reads,
        r.reads + r.read_failures <= cycles,
        policy == ErrorPolicy::BestEffort ==> r.reads + r.read_failures == cycles,
        final(source).emitted().len() == old(source).emitted().len() + r.reads,
        final(sink).written().len() == old(sink).written().len() + r.writes_ok,
        r.writes_failed == 0 ==> final(sink).written() == old(sink).written() + delivered(
            transform.steps(),
            final(source).emitted().subrange(
                old(source).emitted().len() as int,
                final(source).emitted().len() as int,
            ),
        ),
{
    let ghost e0 = source.emitted();
    let ghost w0 = sink.written();
    let mut st = StageState::new(policy);
    let mut i: u64 = 0;
    while i < cycles
        invariant
            i <= cycles,
            wf(st),
            !st.in_flight,
            st.policy == policy,
            st.writes_ok + st.writes_failed == st.reads,
            st.reads + st.read_failures <= i,
            policy == ErrorPolicy::BestEffort ==> st.reads + st.read_failures == i
                && st.phase != Phase::Stopped,
            source.emitted().len() == e0.len() + st.reads,
            sink.written().len() == w0.len() + st.writes_ok,
            source.emitted().subrange(0, e0.len() as int) == e0,
            st.writes_failed == 0 ==> sink.written() == w0 + delivered(
                transform.steps(),
                source.emitted().subrange(e0.len() as int, source.emitted().len() as int),
            ),
        decreases cycles - i,
    {
        let ghost before = st;
        let ghost e1 = source.emitted();
        let ghost w1 = sink.written();
        st.run_cycle(source, sink, transform, false);
        proof {
            let e2 = source.emitted();
            assert(st.reads == before.reads || st.reads == before.reads + 1);
            assert(st.writes_ok == before.writes_ok || st.writes_ok == before.writes_ok + 1);
            if st.writes_ok == before.writes_ok + 1 {
                assert(sink.written().len() == w1.len() + 1);
            }
            if st.reads == before.reads + 1 {
                assert(e2 == e1.push(e2.last()));
                assert(e2.subrange(0, e0.len() as int) =~= e1.subrange(0, e0.len() as int));
                if st.writes_failed == 0 {
                    assert(e2.subrange(e0.len() as int, e2.len() as int) =~= e1.subrange(
                        e0.len() as int,
                        e1.len() as int,
                    ).push(e2.last()));
                    assert(delivered(transform.steps(), e2.subrange(e0.len() as int, e2.len() as int))
                        =~= delivered(
                        transform.steps(),
                        e1.subrange(e0.len() as int, e1.len() as int),
                    ).push(run_steps(transform.steps(), e2.last())));
                    assert(sink.written() =~= w0 + delivered(
                        transform.steps(),
                        e2.subrange(e0.len() as int, e2.len() as int),
                    ));
                }
            }
        }
        i = i + 1;
    }
    st.run_cycle(source, sink, transform, true);
    st
}

/// One named pipeline stage: a source, a chain of transform steps and a sink,
/// driven by a stage state machine.
pub struct Pipeline<S: Source, K: Sink, P: Processor> {
    pub name: String,
    pub source: S,
    pub sink: K,
    pub transform: Transform<P>,
    pub state: StageState,
}

impl<S: Source, K: Sink, P: Processor> Pipeline<S, K, P> {
    /// A stage that has not started.
    pub fn new(name: String, source: S, sink: K, transform: Transform<P>, policy: ErrorPolicy) -> (r:
        Pipeline<S, K, P>)
        ensures
            r.name == name,
            r.state == StageState::new_spec(policy),
    {
        Pipeline { name, source, sink, transform, state: StageState::new(policy) }
    }

    /// Runs one batch of the stage (see `StageState::run_cycle`).
    pub fn run_cycle(&mut self, shutdown: bool)
        requires
            wf(old(self).state),
            !old(self).state.in_flight,
            !shutdown ==> old(self).state.reads < u64::MAX && old(self).state.read_failures
                < u64::MAX && old(self).state.writes_ok < u64::MAX && old(self).state.writes_failed
                < u64::MAX,
        ensures
            wf(final(self).state),
            !final(self).state.in_flight,
            final(self).name == old(self).name,
            shutdown ==> final(self).state.phase == Phase::Stopped,
            shutdown || old(self).state.phase == Phase::Stopped ==> final(self).state.reads == old(
                self,
            ).state.reads,
            !shutdown && old(self).state.phase != Phase::Stopped ==> final(self).state.reads
                + final(self).state.read_failures == old(self).state.reads + old(
                self,
            ).state.read_failures + 1,
            final(self).state.reads == old(self).state.reads ==> final(self).source.emitted()
                == old(self).source.emitted(),
            final(self).state.writes_ok == old(self).state.writes_ok ==> final(self).sink.written()
                == old(self).sink.written(),
            final(self).state.writes_ok == old(self).state.writes_ok + 1 ==> final(self).sink.written()
                == old(self).sink.written().push(
                run_steps(old(self).transform.steps(), final(self).source.emitted().last()),
            ),
    {
        self.state.run_cycle(&mut self.source, &mut self.sink, &self.transform, shutdown);
    }
}

} // verus!
