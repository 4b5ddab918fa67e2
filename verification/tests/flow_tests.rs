use eventflow::bus::Bus;
use eventflow::delivery::Delivery;
use eventflow::flow::flowgraph::{
    run_flow, start_single_source_multi_sink_flow, PipelineRun, RunOutcome, SinkOutcome,
    FLOW_CAPACITY,
};
use eventflow::flow::sinks::{
    goes_on, next_step, write_events, ConsumptionError, EventSink, SinkPolicy, SinkReport,
    SinkStep,
};
use eventflow::flow::sources::{EventSource, Production, ProductionError};
use eventflow::flow::task::TaskState;
use serde_json::Value;
use std::cell::RefCell;

fn num(n: i64) -> Value {
    Value::from(n)
}

/// Keeps what it is handed; fails on the envelopes listed in `refuse`.
struct Recorder {
    policy: SinkPolicy,
    refuse: Vec<Value>,
    seen: RefCell<Vec<Value>>,
}

impl Recorder {
    fn new(policy: SinkPolicy) -> Recorder {
        Recorder { policy, refuse: Vec::new(), seen: RefCell::new(Vec::new()) }
    }

    fn refusing(policy: SinkPolicy, refuse: Vec<Value>) -> Recorder {
        Recorder { policy, refuse, seen: RefCell::new(Vec::new()) }
    }

    fn seen(&self) -> Vec<Value> {
        self.seen.borrow().clone()
    }
}

impl EventSink for Recorder {
    fn policy(&self) -> SinkPolicy {
        self.policy
    }

    fn write_event(&self, event_data: Value) -> Result<bool, ConsumptionError> {
        let refused = self.refuse.contains(&event_data);
        self.seen.borrow_mut().push(event_data);
        if refused {
            Err(ConsumptionError { reason: String::from("refused") })
        } else {
            Ok(true)
        }
    }
}

struct Replay {
    events: Vec<Value>,
    failure: Option<String>,
}

impl EventSource for Replay {
    fn read_events(&self) -> Production {
        Production {
            events: self.events.clone(),
            failure: self.failure.clone().map(|reason| ProductionError { reason }),
        }
    }
}

fn numbers(upto: i64) -> Vec<Value> {
    (1..=upto).map(num).collect()
}

#[test]
fn task_states_are_final() {
    assert!(!TaskState::Running.is_terminal());
    assert!(TaskState::Completed.is_terminal());
    assert!(TaskState::Failed.is_terminal());
    assert_eq!(TaskState::Running.settle(true), TaskState::Completed);
    assert_eq!(TaskState::Running.settle(false), TaskState::Failed);
    assert_eq!(TaskState::Completed.settle(false), TaskState::Completed);
    assert_eq!(TaskState::Failed.settle(true), TaskState::Failed);
}

#[test]
fn deliveries_map_to_steps() {
    assert_eq!(next_step(Delivery::Envelope(num(7))), SinkStep::Process(num(7)));
    assert_eq!(next_step(Delivery::Lagged(3)), SinkStep::RecordGap(3));
    assert_eq!(next_step(Delivery::Closed), SinkStep::Finish);
    assert_eq!(next_step(Delivery::Empty), SinkStep::Wait);
}

#[test]
fn only_a_failure_under_fail_fast_stops_a_sink() {
    let failure = || Err(ConsumptionError { reason: String::from("x") });
    assert!(goes_on(SinkPolicy::BestEffort, &Ok(true)));
    assert!(goes_on(SinkPolicy::BestEffort, &Ok(false)));
    assert!(goes_on(SinkPolicy::BestEffort, &failure()));
    assert!(goes_on(SinkPolicy::FailFast, &Ok(true)));
    assert!(goes_on(SinkPolicy::FailFast, &Ok(false)));
    assert!(!goes_on(SinkPolicy::FailFast, &failure()));
}

#[test]
fn sink_turn_drains_what_is_there_and_waits() {
    let mut bus = Bus::new(4).unwrap();
    let id = bus.subscribe();
    for k in 1..=3 {
        bus.publish(num(k)).unwrap();
    }
    let sink = Recorder::new(SinkPolicy::BestEffort);
    let report = write_events(&sink, SinkPolicy::BestEffort, &mut bus, id).unwrap();
    assert_eq!(report.state, TaskState::Running);
    assert_eq!(report.handled, 3);
    assert_eq!(report.stored, 3);
    assert_eq!(report.failed, 0);
    assert!(report.gaps.is_empty());
    assert_eq!(sink.seen(), numbers(3));
    bus.close();
    let report = write_events(&sink, SinkPolicy::BestEffort, &mut bus, id).unwrap();
    assert_eq!(report.state, TaskState::Completed);
    assert_eq!(report.handled, 0);
}

#[test]
fn sink_turn_notes_lag_and_goes_on() {
    let mut bus = Bus::new(2).unwrap();
    let id = bus.subscribe();
    for k in 1..=5 {
        bus.publish(num(k)).unwrap();
    }
    bus.close();
    let sink = Recorder::new(SinkPolicy::BestEffort);
    let report = write_events(&sink, SinkPolicy::BestEffort, &mut bus, id).unwrap();
    assert_eq!(report.state, TaskState::Completed);
    assert_eq!(report.gaps, vec![3]);
    assert_eq!(report.handled, 2);
    assert_eq!(sink.seen(), vec![num(4), num(5)]);
    assert_eq!(bus.receive(id), Some(Delivery::Closed));
}

#[test]
fn lag_counts_add_up_to_what_was_missed() {
    let mut bus = Bus::new(2).unwrap();
    let id = bus.subscribe();
    let sink = Recorder::new(SinkPolicy::BestEffort);
    let mut handled = 0;
    let mut missed = 0;
    for round in 0..3 {
        for k in 1..=5 {
            bus.publish(num(round * 10 + k)).unwrap();
        }
        let report = write_events(&sink, SinkPolicy::BestEffort, &mut bus, id).unwrap();
        assert_eq!(report.gaps, vec![3]);
        handled += report.handled;
        missed += report.gaps.iter().sum::<u64>();
    }
    assert_eq!(handled, 6);
    assert_eq!(missed, 9);
    assert_eq!(handled as u64 + missed, 15);
    assert_eq!(sink.seen(), vec![num(4), num(5), num(14), num(15), num(24), num(25)]);
}

#[test]
fn fail_fast_sink_stops_at_its_first_failure() {
    let mut bus = Bus::new(8).unwrap();
    let id = bus.subscribe();
    for k in 1..=4 {
        bus.publish(num(k)).unwrap();
    }
    let sink = Recorder::refusing(SinkPolicy::FailFast, vec![num(2), num(3)]);
    let report = write_events(&sink, SinkPolicy::FailFast, &mut bus, id).unwrap();
    assert_eq!(report.state, TaskState::Failed);
    assert_eq!(report.handled, 2);
    assert_eq!(report.stored, 1);
    assert_eq!(report.failed, 1);
    assert_eq!(sink.seen(), vec![num(1), num(2)]);
    // what it did not take is still there
    assert_eq!(bus.receive(id), Some(Delivery::Envelope(num(3))));
}

#[test]
fn best_effort_sink_goes_on_after_failures() {
    let mut bus = Bus::new(8).unwrap();
    let id = bus.subscribe();
    for k in 1..=4 {
        bus.publish(num(k)).unwrap();
    }
    let sink = Recorder::refusing(SinkPolicy::BestEffort, vec![num(2), num(3)]);
    let report = write_events(&sink, SinkPolicy::BestEffort, &mut bus, id).unwrap();
    assert_eq!(report.state, TaskState::Running);
    assert_eq!(report.handled, 4);
    assert_eq!(report.stored, 2);
    assert_eq!(report.failed, 2);
    assert_eq!(sink.seen(), numbers(4));
}

#[test]
fn sink_turn_on_unknown_subscription() {
    let mut bus = Bus::new(2).unwrap();
    let sink = Recorder::new(SinkPolicy::BestEffort);
    assert!(write_events(&sink, SinkPolicy::BestEffort, &mut bus, 0).is_none());
}

#[test]
fn every_sink_is_handed_every_envelope_in_order() {
    let sinks = vec![
        Recorder::new(SinkPolicy::BestEffort),
        Recorder::new(SinkPolicy::FailFast),
        Recorder::new(SinkPolicy::BestEffort),
    ];
    let source = Replay { events: numbers(20), failure: None };
    let run = start_single_source_multi_sink_flow(&source, &sinks);
    assert_eq!(run.outcome(), Some(RunOutcome::Succeeded));
    assert_eq!(run.source, TaskState::Completed);
    assert_eq!(run.sinks.len(), 3);
    for (sink, outcome) in sinks.iter().zip(run.sinks.iter()) {
        assert_eq!(sink.seen(), numbers(20));
        assert_eq!(outcome.state, TaskState::Completed);
        assert_eq!(outcome.handled, 20);
        assert_eq!(outcome.stored, 20);
        assert_eq!(outcome.failed, 0);
    }
}

#[test]
fn more_envelopes_than_the_bus_retains_still_reach_every_sink() {
    let sinks = vec![Recorder::new(SinkPolicy::BestEffort)];
    let many = (FLOW_CAPACITY as i64) * 3;
    let run = run_flow(Production { events: numbers(many), failure: None }, &sinks);
    assert_eq!(run.outcome(), Some(RunOutcome::Succeeded));
    assert_eq!(run.sinks[0].handled, many as usize);
    assert_eq!(sinks[0].seen(), numbers(many));
}

#[test]
fn run_without_sinks_succeeds() {
    let sinks: Vec<Recorder> = Vec::new();
    let source = Replay { events: numbers(5), failure: None };
    let run = start_single_source_multi_sink_flow(&source, &sinks);
    assert_eq!(run.source, TaskState::Completed);
    assert!(run.sinks.is_empty());
    assert!(run.is_resolved());
    assert_eq!(run.outcome(), Some(RunOutcome::Succeeded));
}

#[test]
fn failing_sink_does_not_hold_back_the_others() {
    let sinks = vec![
        Recorder::new(SinkPolicy::BestEffort),
        Recorder::refusing(SinkPolicy::FailFast, vec![num(3)]),
        Recorder::refusing(SinkPolicy::BestEffort, vec![num(3)]),
    ];
    let run = run_flow(Production { events: numbers(6), failure: None }, &sinks);
    assert_eq!(run.outcome(), Some(RunOutcome::SinksFailed));
    assert_eq!(run.first_failed_sink(), Some(1));
    assert_eq!(run.source, TaskState::Completed);
    assert_eq!(run.sinks[0].state, TaskState::Completed);
    assert_eq!(run.sinks[1].state, TaskState::Failed);
    assert_eq!(run.sinks[2].state, TaskState::Completed);
    assert_eq!(sinks[0].seen(), numbers(6));
    assert_eq!(sinks[1].seen(), numbers(3));
    assert_eq!(sinks[2].seen(), numbers(6));
    assert_eq!(run.sinks[1].handled, 3);
    assert_eq!(run.sinks[1].failed, 1);
    assert_eq!(run.sinks[2].handled, 6);
    assert_eq!(run.sinks[2].failed, 1);
    assert_eq!(run.sinks[2].stored, 5);
    assert_eq!(run.sinks[1].policy, SinkPolicy::FailFast);
}

#[test]
fn failed_source_still_lets_sinks_drain() {
    let sinks = vec![Recorder::new(SinkPolicy::BestEffort)];
    let source = Replay { events: numbers(2), failure: Some(String::from("malformed record")) };
    let run = start_single_source_multi_sink_flow(&source, &sinks);
    assert_eq!(run.source, TaskState::Failed);
    assert_eq!(run.sinks[0].state, TaskState::Completed);
    assert_eq!(sinks[0].seen(), numbers(2));
    assert_eq!(run.outcome(), Some(RunOutcome::SourceFailed));
}

#[test]
fn source_failure_outranks_sink_failure() {
    let sinks = vec![Recorder::refusing(SinkPolicy::FailFast, vec![num(1)])];
    let production =
        Production { events: numbers(2), failure: Some(ProductionError { reason: String::new() }) };
    assert_eq!(production.state(), TaskState::Failed);
    let run = run_flow(production, &sinks);
    assert_eq!(run.outcome(), Some(RunOutcome::SourceFailed));
    assert_eq!(run.first_failed_sink(), Some(0));
}

#[test]
fn unresolved_run_has_no_outcome() {
    let waiting = SinkOutcome {
        policy: SinkPolicy::BestEffort,
        state: TaskState::Running,
        handled: 0,
        stored: 0,
        failed: 0,
    };
    let run = PipelineRun { source: TaskState::Completed, sinks: vec![waiting] };
    assert!(!run.is_resolved());
    assert_eq!(run.outcome(), None);
    let run = PipelineRun { source: TaskState::Running, sinks: Vec::new() };
    assert_eq!(run.outcome(), None);
}

#[test]
fn report_sums_its_gaps() {
    let report = |gaps: Vec<u64>| SinkReport {
        state: TaskState::Running,
        handled: 0,
        stored: 0,
        failed: 0,
        gaps,
    };
    assert_eq!(report(vec![]).missed(), Some(0));
    assert_eq!(report(vec![3, 4, 5]).missed(), Some(12));
    assert_eq!(report(vec![u64::MAX]).missed(), Some(u64::MAX));
    assert_eq!(report(vec![u64::MAX, 1]).missed(), None);
    assert_eq!(report(vec![1, u64::MAX, 0]).missed(), None);
}

#[test]
fn a_turn_accounts_for_every_envelope_it_passed() {
    let mut bus = Bus::new(4).unwrap();
    let id = bus.subscribe();
    for k in 1..=11 {
        bus.publish(num(k)).unwrap();
    }
    let sink = Recorder::new(SinkPolicy::BestEffort);
    let report = write_events(&sink, SinkPolicy::BestEffort, &mut bus, id).unwrap();
    assert_eq!(report.gaps, vec![7]);
    assert_eq!(report.missed(), Some(7));
    assert_eq!(report.handled, 4);
    assert_eq!(report.handled as u64 + report.missed().unwrap(), 11);
    assert_eq!(sink.seen(), vec![num(8), num(9), num(10), num(11)]);
}
