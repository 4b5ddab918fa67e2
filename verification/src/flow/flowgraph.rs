//! The orchestrator: wires one source to its sinks over one bus, lets all of
//! them run to their end, and reports how the run went.
use vstd::prelude::*;
use crate::bus::Bus;
use crate::capacity::lemma_ceil_power_of_two_bounds;
use crate::flow::sinks::{write_events, EventSink, SinkPolicy};
use crate::flow::sources::{EventSource, Production};
use crate::flow::task::TaskState;
use crate::laws::{lemma_drain_progress, lemma_drain_within_capacity};
use crate::model::BusState;

verus! {

/// How many envelopes the bus of a flow is asked to retain.
pub const FLOW_CAPACITY: usize = 1000;

/// How one sink of a run fared.
#[derive(Debug)]
pub struct SinkOutcome {
    /// What the sink does after a failure.
    pub policy: SinkPolicy,
    /// How the sink task ended.
    pub state: TaskState,
    /// How many envelopes the sink was handed.
    pub handled: usize,
    /// For how many of them it reported that it stored something.
    pub stored: usize,
    /// For how many of them it reported a failure.
    pub failed: usize,
}

impl SinkOutcome {
    /// What holds of a sink while the source has published `published`
    /// envelopes and the bus is open: the sink runs, unless it failed and its
    /// policy was to stop; while it runs it has been handed every envelope.
    pub open spec fn in_step(self, published: nat) -> bool {
        &&& self.state != TaskState::Completed
        &&& self.state == TaskState::Failed <==> self.policy == SinkPolicy::FailFast && self.failed
            > 0
        &&& self.state == TaskState::Failed ==> self.failed == 1
        &&& self.state == TaskState::Running ==> self.handled == published
        &&& self.handled <= published
        &&& self.stored + self.failed <= self.handled
    }

    /// What holds of a sink at the end of a run in which `published` envelopes
    /// were published: it completed, unless it failed and its policy was to
    /// stop; if it completed, it was handed every envelope.
    pub open spec fn settled(self, published: nat) -> bool {
        &&& self.state != TaskState::Running
        &&& self.state == TaskState::Failed <==> self.policy == SinkPolicy::FailFast && self.failed
            > 0
        &&& self.state == TaskState::Failed ==> self.failed == 1
        &&& self.state == TaskState::Completed ==> self.handled == published
        &&& self.handled <= published
        &&& self.stored + self.failed <= self.handled
    }
}

/// How a run went.
#[derive(Debug, Clone, Copy, PartialEq, Eq, Structural)]
pub enum RunOutcome {
    /// The source and every sink succeeded.
    Succeeded,
    /// The source failed; the sinks still drained what they could.
    SourceFailed,
    /// The source succeeded and one or more sinks failed.
    SinksFailed,
}

/// The outcomes of the tasks of one run.
#[derive(Debug)]
pub struct PipelineRun {
    /// How the source task ended.
    pub source: TaskState,
    /// How each sink fared, in the order in which the sinks were given.
    pub sinks: Vec<SinkOutcome>,
}

impl PipelineRun {
    /// Whether every task has ended.
    pub open spec fn spec_is_resolved(self) -> bool {
        &&& self.source != TaskState::Running
        &&& forall|i: int|
            0 <= i < self.sinks@.len() ==> (#[trigger] self.sinks@[i]).state != TaskState::Running
    }

    /// Whether some sink failed.
    pub open spec fn some_sink_failed(self) -> bool {
        exists|i: int|
            0 <= i < self.sinks@.len() && (#[trigger] self.sinks@[i]).state == TaskState::Failed
    }

    /// How the run went, once every task has ended: a failed source makes it
    /// `SourceFailed` whatever the sinks did; else one failed sink makes it
    /// `SinksFailed`; else it succeeded.
    pub open spec fn spec_outcome(self) -> Option<RunOutcome> {
        if !self.spec_is_resolved() {
            None
        } else if self.source == TaskState::Failed {
            Some(RunOutcome::SourceFailed)
        } else if self.some_sink_failed() {
            Some(RunOutcome::SinksFailed)
        } else {
            Some(RunOutcome::Succeeded)
        }
    }

    /// Whether every task has ended.
    pub fn is_resolved(&self) -> (resolved: bool)
        ensures
            resolved == self.spec_is_resolved(),
    {
        if self.source.is_terminal() {
            let mut i: usize = 0;
            while i < self.sinks.len()
                invariant
                    i <= self.sinks@.len(),
                    forall|j: int|
                        0 <= j < i ==> (#[trigger] self.sinks@[j]).state != TaskState::Running,
                decreases self.sinks@.len() - i,
            {
                if !self.sinks[i].state.is_terminal() {
                    return false;
                }
                i = i + 1;
            }
            true
        } else {
            false
        }
    }

    /// The first sink that failed, if any did.
    pub fn first_failed_sink(&self) -> (first: Option<usize>)
        ensures
            first is Some <==> self.some_sink_failed(),
            first matches Some(f) ==> {
                &&& f < self.sinks@.len()
                &&& self.sinks@[f as int].state == TaskState::Failed
                &&& forall|j: int| 0 <= j < f ==> (#[trigger] self.sinks@[j]).state != TaskState::Failed
            },
    {
        let mut i: usize = 0;
        while i < self.sinks.len()
            invariant
                i <= self.sinks@.len(),
                forall|j: int| 0 <= j < i ==> (#[trigger] self.sinks@[j]).state != TaskState::Failed,
            decreases self.sinks@.len() - i,
        {
            match self.sinks[i].state {
                TaskState::Failed => {
                    return Some(i);
                },
                _ => {},
            }
            i = i + 1;
        }
        None
    }

    /// How the run went; `None` while a task is still running.
    pub fn outcome(&self) -> (outcome: Option<RunOutcome>)
        ensures
            outcome == self.spec_outcome(),
    {
        if !self.is_resolved() {
            return None;
        }
        match self.source {
            TaskState::Failed => Some(RunOutcome::SourceFailed),
            _ => match self.first_failed_sink() {
                Some(_) => Some(RunOutcome::SinksFailed),
                None => Some(RunOutcome::Succeeded),
            },
        }
    }
}

/// Whether the sinks `lo..hi` are in step with a bus on which `published`
/// envelopes were published: each is as `in_step` says, and each that still
/// runs has `behind` envelopes waiting for it.
pub open spec fn sinks_in_step(
    outcomes: Seq<SinkOutcome>,
    bus: BusState,
    lo: int,
    hi: int,
    published: nat,
    behind: nat,
) -> bool {
    forall|t: int|
        lo <= t < hi ==> {
            &&& (#[trigger] outcomes[t]).in_step(published)
            &&& outcomes[t].state == TaskState::Running ==> bus.cursors[t] + behind
                == bus.published.len()
        }
}

/// Whether every one of `outcomes` is settled after a run in which
/// `published` envelopes were published.
pub open spec fn all_settled(outcomes: Seq<SinkOutcome>, published: nat) -> bool {
    forall|i: int| 0 <= i < outcomes.len() ==> (#[trigger] outcomes[i]).settled(published)
}

/// Runs a flow on what its source produced. Every sink is subscribed before
/// the first envelope is published; each envelope is published and then
/// offered to every sink that still runs; when the source is through, failed
/// or not, the bus is closed and every sink that still runs sees the stream
/// end. A sink that fails does not keep the others from being handed every
/// envelope.
pub fn run_flow<O: EventSink>(production: Production, event_sinks: &Vec<O>) -> (run: PipelineRun)
    ensures
        run.source == production.spec_state(),
        run.sinks@.len() == event_sinks@.len(),
        all_settled(run.sinks@, production.events@.len()),
        run.spec_is_resolved(),
{
    let source = production.state();
    let events = production.events;
    let n_sinks = event_sinks.len();
    let mut bus = match Bus::new(FLOW_CAPACITY) {
        Some(bus) => bus,
        None => unreached(),
    };
    proof {
        lemma_ceil_power_of_two_bounds(FLOW_CAPACITY as nat);
        bus.lemma_view_wf();
    }
    let mut outcomes: Vec<SinkOutcome> = Vec::new();
    let mut i: usize = 0;
    while i < n_sinks
        invariant
            bus.wf(),
            n_sinks == event_sinks@.len(),
            i <= n_sinks,
            outcomes@.len() == i,
            bus@.cursors.len() == i,
            bus@.published.len() == 0,
            !bus@.closed,
            bus@.capacity >= 1,
            sinks_in_step(outcomes@, bus@, 0, i as int, 0, 0),
        decreases n_sinks - i,
    {
        let policy = event_sinks[i].policy();
        bus.subscribe();
        outcomes.push(
            SinkOutcome { policy, state: TaskState::Running, handled: 0, stored: 0, failed: 0 },
        );
        i = i + 1;
    }
    let ghost total = events@.len();
    let n_events = events.len();
    for envelope in it: events
        invariant
            bus.wf(),
            n_sinks == event_sinks@.len(),
            outcomes@.len() == n_sinks,
            bus@.cursors.len() == n_sinks,
            bus@.published.len() == (if n_sinks > 0 {
                it.index()
            } else {
                0
            }),
            !bus@.closed,
            bus@.capacity >= 1,
            total == it.seq().len(),
            total == n_events,
            sinks_in_step(outcomes@, bus@, 0, n_sinks as int, it.index() as nat, 0),
    {
        let ghost k = it.index() as nat;
        // with nobody subscribed the envelope has nowhere to go
        let _ = bus.publish(envelope);
        let mut j: usize = 0;
        while j < n_sinks
            invariant
                bus.wf(),
                n_sinks == event_sinks@.len(),
                j <= n_sinks,
                outcomes@.len() == n_sinks,
                bus@.cursors.len() == n_sinks,
                bus@.published.len() == (if n_sinks > 0 {
                    k + 1
                } else {
                    0
                }),
                k < total <= usize::MAX,
                !bus@.closed,
                bus@.capacity >= 1,
                sinks_in_step(outcomes@, bus@, 0, j as int, k + 1, 0),
                sinks_in_step(outcomes@, bus@, j as int, n_sinks as int, k, 1),
            decreases n_sinks - j,
        {
            let policy = outcomes[j].policy;
            match outcomes[j].state {
                TaskState::Running => {
                    let ghost before = bus@;
                    let ghost earlier = outcomes@;
                    proof {
                        bus.lemma_view_wf();
                        assert(earlier[j as int].in_step(k));
                        assert(before.backlog(j as int) == 1);
                    }
                    match write_events(&event_sinks[j], policy, &mut bus, j) {
                        Some(turn) => {
                            proof {
                                lemma_drain_progress(before, j as int, turn.receives());
                                lemma_drain_within_capacity(before, j as int, turn.receives());
                            }
                            let handled = outcomes[j].handled + turn.handled;
                            let stored = outcomes[j].stored + turn.stored;
                            let failed = outcomes[j].failed + turn.failed;
                            outcomes[j] = SinkOutcome {
                                policy,
                                state: turn.state,
                                handled,
                                stored,
                                failed,
                            };
                            proof {
                                assert forall|t: int| 0 <= t < j + 1 implies {
                                    &&& (#[trigger] outcomes@[t]).in_step(k + 1)
                                    &&& outcomes@[t].state == TaskState::Running
                                        ==> bus@.cursors[t] + 0 == bus@.published.len()
                                } by {
                                    if t < j {
                                        assert(earlier[t].in_step(k + 1));
                                    }
                                }
                                assert forall|t: int| j + 1 <= t < n_sinks implies {
                                    &&& (#[trigger] outcomes@[t]).in_step(k)
                                    &&& outcomes@[t].state == TaskState::Running
                                        ==> bus@.cursors[t] + 1 == bus@.published.len()
                                } by {
                                    assert(earlier[t].in_step(k));
                                }
                            }
                        },
                        None => {},
                    }
                },
                _ => {
                    proof {
                        assert(outcomes@[j as int].in_step(k));
                    }
                },
            }
            j = j + 1;
        }
    }
    bus.close();
    let mut j: usize = 0;
    while j < n_sinks
        invariant
            bus.wf(),
            n_sinks == event_sinks@.len(),
            j <= n_sinks,
            outcomes@.len() == n_sinks,
            bus@.cursors.len() == n_sinks,
            bus@.closed,
            bus@.capacity >= 1,
            forall|t: int| 0 <= t < j ==> (#[trigger] outcomes@[t]).settled(total),
            sinks_in_step(outcomes@, bus@, j as int, n_sinks as int, total, 0),
        decreases n_sinks - j,
    {
        let policy = outcomes[j].policy;
        match outcomes[j].state {
            TaskState::Running => {
                let ghost before = bus@;
                let ghost earlier = outcomes@;
                proof {
                    bus.lemma_view_wf();
                    assert(earlier[j as int].in_step(total));
                    assert(before.backlog(j as int) == 0);
                }
                match write_events(&event_sinks[j], policy, &mut bus, j) {
                    Some(turn) => {
                        proof {
                            lemma_drain_progress(before, j as int, turn.receives());
                        }
                        let handled = outcomes[j].handled;
                        let stored = outcomes[j].stored;
                        let failed = outcomes[j].failed;
                        outcomes[j] = SinkOutcome {
                            policy,
                            state: turn.state,
                            handled,
                            stored,
                            failed,
                        };
                        proof {
                            assert forall|t: int| 0 <= t < j + 1 implies (
                            #[trigger] outcomes@[t]).settled(total) by {
                                if t < j {
                                    assert(earlier[t].settled(total));
                                }
                            }
                            assert forall|t: int| j + 1 <= t < n_sinks implies {
                                &&& (#[trigger] outcomes@[t]).in_step(total)
                                &&& outcomes@[t].state == TaskState::Running ==> bus@.cursors[t] + 0
                                    == bus@.published.len()
                            } by {
                                assert(earlier[t].in_step(total));
                            }
                        }
                    },
                    None => {},
                }
            },
            _ => {
                proof {
                    assert(outcomes@[j as int].in_step(total));
                }
            },
        }
        j = j + 1;
    }
    PipelineRun { source, sinks: outcomes }
}

/// Single source, multi sink flow: lets `event_source` produce, then runs the
/// flow on what it produced. Every task has ended when this returns: the
/// source as its production says, each sink completed unless it failed and
/// its policy was to stop.
pub fn start_single_source_multi_sink_flow<I: EventSource, O: EventSink>(
    event_source: &I,
    event_sinks: &Vec<O>,
) -> (run: PipelineRun)
    ensures
        run.sinks@.len() == event_sinks@.len(),
        run.spec_is_resolved(),
        exists|published: nat| #[trigger] all_settled(run.sinks@, published),
{
    let production = event_source.read_events();
    let ghost published = production.events@.len();
    let run = run_flow(production, event_sinks);
    assert(all_settled(run.sinks@, published));
    run
}

/// A run with no sinks succeeds exactly if its source completed.
pub proof fn law_zero_sink_run(run: PipelineRun)
    requires
        run.sinks@.len() == 0,
        run.source != TaskState::Running,
    ensures
        run.spec_outcome() == Some(
            if run.source == TaskState::Completed {
                RunOutcome::Succeeded
            } else {
                RunOutcome::SourceFailed
            },
        ),
{
}

/// A run succeeds only if its source and every sink completed; it fails as
/// soon as one of them failed.
pub proof fn law_success_needs_all(run: PipelineRun)
    ensures
        run.spec_outcome() == Some(RunOutcome::Succeeded) <==> (run.source == TaskState::Completed
            && forall|i: int|
            0 <= i < run.sinks@.len() ==> (#[trigger] run.sinks@[i]).state == TaskState::Completed),
{
    if run.source == TaskState::Completed && forall|i: int|
        0 <= i < run.sinks@.len() ==> (#[trigger] run.sinks@[i]).state == TaskState::Completed {
        assert(run.spec_is_resolved());
    }
}

} // verus!
