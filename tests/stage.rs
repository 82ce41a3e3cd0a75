use fust::orchestrator::{run_stage, Pipeline, Sink, Source};
use fust::stage::{Action, ErrorPolicy, Event, Phase, StageState};
use fust::transform::{Processor, Transform};

struct CountingSource {
    batch_size: usize,
    next_id: usize,
    reads: usize,
}

impl Source for CountingSource {
    fn read(&mut self) -> Result<Vec<String>, String> {
        let batch = (0..self.batch_size).map(|k| format!("order-{}", self.next_id + k)).collect();
        self.next_id += self.batch_size;
        self.reads += 1;
        Ok(batch)
    }
}

struct RecordingSink {
    fail_on_call: Option<usize>,
    calls: usize,
    written: Vec<Vec<String>>,
}

impl Sink for RecordingSink {
    fn write(&mut self, records: Vec<String>) -> Result<(), String> {
        self.calls += 1;
        if Some(self.calls) == self.fail_on_call {
            return Err("sink unavailable".to_string());
        }
        self.written.push(records);
        Ok(())
    }
}

struct Upper;

impl Processor for Upper {
    fn process(&self, batch: Vec<String>) -> Vec<String> {
        batch.into_iter().map(|r| r.to_uppercase()).collect()
    }
}

struct FailingSource;

impl Source for FailingSource {
    fn read(&mut self) -> Result<Vec<String>, String> {
        Err("connection reset".to_string())
    }
}

fn source(batch_size: usize) -> CountingSource {
    CountingSource { batch_size, next_id: 0, reads: 0 }
}

fn sink(fail_on_call: Option<usize>) -> RecordingSink {
    RecordingSink { fail_on_call, calls: 0, written: Vec::new() }
}

#[test]
fn n_cycles_give_n_writes_of_b_records_in_order() {
    let (n, b) = (4u64, 3usize);
    let mut src = source(b);
    let mut snk = sink(None);
    let transform: Transform<Upper> = Transform::new();
    let st = run_stage(&mut src, &mut snk, &transform, ErrorPolicy::BestEffort, n);
    assert_eq!(st.phase, Phase::Stopped);
    assert_eq!(snk.calls, 4);
    assert_eq!(st.writes_ok, 4);
    assert_eq!(st.reads, 4);
    let mut expected_id = 0;
    for batch in &snk.written {
        assert_eq!(batch.len(), 3);
        for record in batch {
            assert_eq!(record, &format!("order-{}", expected_id));
            expected_id += 1;
        }
    }
    assert_eq!(expected_id, 12);
}

#[test]
fn sink_failure_on_third_of_five_batches_is_skipped() {
    let mut src = source(2);
    let mut snk = sink(Some(3));
    let transform: Transform<Upper> = Transform::new();
    let st = run_stage(&mut src, &mut snk, &transform, ErrorPolicy::BestEffort, 5);
    assert_eq!(st.phase, Phase::Stopped);
    assert_eq!(st.writes_ok, 4);
    assert_eq!(st.writes_failed, 1);
    assert_eq!(snk.written.len(), 4);
    assert_eq!(snk.written[2], vec!["order-6".to_string(), "order-7".to_string()]);
    assert_eq!(src.reads, 5);
}

#[test]
fn fail_stage_policy_stops_at_first_failed_write() {
    let mut src = source(1);
    let mut snk = sink(Some(2));
    let transform: Transform<Upper> = Transform::new();
    let st = run_stage(&mut src, &mut snk, &transform, ErrorPolicy::FailStage, 5);
    assert_eq!(st.phase, Phase::Stopped);
    assert_eq!(st.writes_ok, 1);
    assert_eq!(st.writes_failed, 1);
    assert_eq!(src.reads, 2);
}

#[test]
fn read_failures_are_counted_and_nothing_is_written() {
    let mut src = FailingSource;
    let mut snk = sink(None);
    let transform: Transform<Upper> = Transform::new();
    let st = run_stage(&mut src, &mut snk, &transform, ErrorPolicy::BestEffort, 3);
    assert_eq!(st.read_failures, 3);
    assert_eq!(st.reads, 0);
    assert_eq!(snk.calls, 0);
    assert_eq!(st.phase, Phase::Stopped);
}

#[test]
fn transform_steps_apply_in_order_before_the_sink() {
    let mut src = source(1);
    let mut snk = sink(None);
    let mut transform = Transform::new();
    transform.add_processor(Upper);
    run_stage(&mut src, &mut snk, &transform, ErrorPolicy::BestEffort, 2);
    assert_eq!(snk.written, vec![vec!["ORDER-0".to_string()], vec!["ORDER-1".to_string()]]);
}

#[test]
fn shutdown_at_a_boundary_stops_without_reading() {
    let mut src = source(1);
    let mut snk = sink(None);
    let transform: Transform<Upper> = Transform::new();
    let mut st = StageState::new(ErrorPolicy::BestEffort);
    st.run_cycle(&mut src, &mut snk, &transform, false);
    st.run_cycle(&mut src, &mut snk, &transform, true);
    assert_eq!(st.phase, Phase::Stopped);
    st.run_cycle(&mut src, &mut snk, &transform, false);
    assert_eq!(src.reads, 1);
    assert_eq!(st.reads, 1);
}

#[test]
fn shutdown_during_write_drains_then_stops() {
    let mut st = StageState::new(ErrorPolicy::BestEffort);
    assert_eq!(st.step(Event::Started), Action::Read);
    assert_eq!(st.step(Event::ReadOk), Action::Write);
    assert_eq!(st.step(Event::ShutdownObserved), Action::Wait);
    assert_eq!(st.phase, Phase::Draining);
    assert_eq!(st.step(Event::ReadOk), Action::Wait);
    assert_eq!(st.step(Event::WriteOk), Action::Release);
    assert_eq!(st.phase, Phase::Stopped);
    assert_eq!(st.writes_ok, 1);
    assert_eq!(st.step(Event::Started), Action::Wait);
}

#[test]
fn no_second_read_while_a_write_is_pending() {
    let mut st = StageState::new(ErrorPolicy::BestEffort);
    st.step(Event::Started);
    st.step(Event::ReadOk);
    assert!(st.in_flight);
    assert_eq!(st.step(Event::ReadOk), Action::Wait);
    assert_eq!(st.reads, 1);
    assert_eq!(st.step(Event::WriteFailed), Action::Read);
    assert_eq!(st.writes_failed, 1);
}

#[test]
fn idle_stage_stops_on_shutdown() {
    let mut st = StageState::new(ErrorPolicy::FailStage);
    assert_eq!(st.step(Event::ShutdownObserved), Action::Release);
    assert_eq!(st.phase, Phase::Stopped);
}

#[test]
fn named_pipeline_runs_until_shutdown() {
    let transform: Transform<Upper> = Transform::new();
    let mut p = Pipeline::new(
        "ingest".to_string(),
        source(2),
        sink(None),
        transform,
        ErrorPolicy::BestEffort,
    );
    assert_eq!(p.state.phase, Phase::Idle);
    p.run_cycle(false);
    p.run_cycle(false);
    p.run_cycle(true);
    assert_eq!(p.name, "ingest");
    assert_eq!(p.state.phase, Phase::Stopped);
    assert_eq!(p.sink.written.len(), 2);
    assert_eq!(p.source.reads, 2);
}
