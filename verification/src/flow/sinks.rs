//! Sinks: the consumers of a flow.
//!
//! A sink is handed envelopes one at a time. What it did with each decides,
//! together with its policy, whether it goes on.
use vstd::prelude::*;
use serde_json::Value;
use crate::bus::Bus;
use crate::delivery::{envelopes, gaps, total, Delivery};
use crate::flow::task::TaskState;
use crate::laws::{law_turn_accounting, lemma_drain_progress, lemma_drain_step, lemma_tally_push};

pub mod console;
pub mod influxdb;
pub mod pg;

verus! {

/// Why a sink could not process an envelope.
#[derive(Debug)]
pub struct ConsumptionError {
    pub reason: String,
}

/// What a sink does after it failed to process an envelope.
#[derive(Debug, Clone, Copy, PartialEq, Eq, Structural)]
pub enum SinkPolicy {
    /// Note the failure and go on with the next envelope.
    BestEffort,
    /// Stop, and report the failure.
    FailFast,
}

/// A consumer of envelopes.
pub trait EventSink {
    /// What this sink does after a failure.
    fn policy(&self) -> SinkPolicy;

    /// Processes one envelope: `Ok(true)` if it was stored, `Ok(false)` if
    /// there was nothing to store.
    fn write_event(&self, event_data: Value) -> Result<bool, ConsumptionError>;
}

/// What a sink does with a delivery.
#[derive(Debug, PartialEq)]
pub enum SinkStep {
    /// Process this envelope, then receive again.
    Process(Value),
    /// Note that this many envelopes were missed, then receive again.
    RecordGap(u64),
    /// The stream has ended: stop with success.
    Finish,
    /// Nothing to do until more is published.
    Wait,
}

/// What a sink does with `delivery`: lag is noted and is no reason to stop.
pub open spec fn spec_next_step(delivery: Delivery) -> SinkStep {
    match delivery {
        Delivery::Envelope(e) => SinkStep::Process(e),
        Delivery::Lagged(n) => SinkStep::RecordGap(n),
        Delivery::Closed => SinkStep::Finish,
        Delivery::Empty => SinkStep::Wait,
    }
}

/// What a sink does with `delivery`: lag is noted and is no reason to stop.
pub fn next_step(delivery: Delivery) -> (step: SinkStep)
    ensures
        step == spec_next_step(delivery),
{
    match delivery {
        Delivery::Envelope(e) => SinkStep::Process(e),
        Delivery::Lagged(n) => SinkStep::RecordGap(n),
        Delivery::Closed => SinkStep::Finish,
        Delivery::Empty => SinkStep::Wait,
    }
}

/// Whether a sink with `policy` goes on after it processed an envelope with
/// the result `written`: only a failure under `FailFast` stops it.
pub fn goes_on(policy: SinkPolicy, written: &Result<bool, ConsumptionError>) -> (on: bool)
    ensures
        on <==> (policy == SinkPolicy::BestEffort || written is Ok),
{
    match written {
        Ok(_) => true,
        Err(_) => match policy {
            SinkPolicy::BestEffort => true,
            SinkPolicy::FailFast => false,
        },
    }
}

/// What one turn of a sink came to.
#[derive(Debug)]
pub struct SinkReport {
    /// `Completed` if the sink saw the stream end, `Failed` if it stopped on a
    /// failure, `Running` if it waits for more.
    pub state: TaskState,
    /// How many envelopes the sink was handed.
    pub handled: usize,
    /// For how many of them it reported that it stored something.
    pub stored: usize,
    /// For how many of them it reported a failure.
    pub failed: usize,
    /// The missed-envelope count of each lag signal, in order.
    pub gaps: Vec<u64>,
}

impl SinkReport {
    /// How many receives moved the subscription forward.
    pub open spec fn receives(self) -> nat {
        self.handled as nat + self.gaps@.len()
    }

    /// How many envelopes the sink missed in this turn: the sum of its gaps,
    /// or `None` where the sum does not fit.
    pub fn missed(&self) -> (sum: Option<u64>)
        ensures
            sum is Some <==> total(self.gaps@) <= u64::MAX,
            sum matches Some(m) ==> m == total(self.gaps@),
    {
        let mut sum: u64 = 0;
        let mut i: usize = 0;
        while i < self.gaps.len()
            invariant
                i <= self.gaps@.len(),
                sum == total(self.gaps@.take(i as int)),
            decreases self.gaps@.len() - i,
        {
            proof {
                assert(self.gaps@.take(i + 1).drop_last() =~= self.gaps@.take(i as int));
                lemma_total_grows(self.gaps@.take(i + 1), self.gaps@);
            }
            match sum.checked_add(self.gaps[i]) {
                Some(more) => {
                    sum = more;
                },
                None => {
                    return None;
                },
            }
            i = i + 1;
        }
        assert(self.gaps@.take(i as int) =~= self.gaps@);
        Some(sum)
    }
}

/// The sum of a prefix is at most the sum of the whole.
proof fn lemma_total_grows(part: Seq<u64>, whole: Seq<u64>)
    requires
        part.is_prefix_of(whole),
    ensures
        total(part) <= total(whole),
    decreases whole.len(),
{
    if part.len() < whole.len() {
        assert(part.is_prefix_of(whole.drop_last()));
        lemma_total_grows(part, whole.drop_last());
    } else {
        assert(part =~= whole);
    }
}

/// Lets `sink` consume what the bus holds for subscription `id`: every
/// envelope is handed to the sink, every lag signal is noted, until the
/// stream has ended, nothing is left for now, or the sink fails and its
/// policy is to stop. `None` if there is no such subscription.
pub fn write_events<S: EventSink>(sink: &S, policy: SinkPolicy, bus: &mut Bus, id: usize) -> (report:
    Option<SinkReport>)
    requires
        old(bus).wf(),
    ensures
        final(bus).wf(),
        report is Some <==> old(bus)@.has(id as int),
        report is None ==> final(bus)@ == old(bus)@,
        report matches Some(r) ==> {
            &&& r.receives() <= old(bus)@.pending(id as int)
            &&& final(bus)@ == old(bus)@.drain(id as int, r.receives())
            &&& r.handled == envelopes(old(bus)@.drained(id as int, r.receives())).len()
            &&& r.gaps@ == gaps(old(bus)@.drained(id as int, r.receives()))
            &&& r.stored + r.failed <= r.handled
            &&& old(bus)@.published.len() <= u64::MAX ==> r.handled + total(r.gaps@)
                == final(bus)@.cursors[id as int] - old(bus)@.cursors[id as int]
            &&& r.state == TaskState::Failed <==> policy == SinkPolicy::FailFast && r.failed > 0
            &&& r.state == TaskState::Failed ==> r.failed == 1
            &&& r.state != TaskState::Failed ==> r.receives() == old(bus)@.pending(id as int)
            &&& r.state == TaskState::Completed ==> old(bus)@.closed
            &&& r.state == TaskState::Running ==> !old(bus)@.closed
        },
{
    let ghost start = bus@;
    proof {
        bus.lemma_view_wf();
    }
    if id >= bus.subscriber_count() {
        return None;
    }
    let mut handled: usize = 0;
    let mut stored: usize = 0;
    let mut failed: usize = 0;
    let mut lags: Vec<u64> = Vec::new();
    let ghost mut n: nat = 0;
    proof {
        lemma_drain_step(start, id as int, 0);
    }
    loop
        invariant
            bus.wf(),
            start == old(bus)@,
            start.wf(),
            start.has(id as int),
            start.capacity < usize::MAX,
            n == handled + lags@.len(),
            n <= start.pending(id as int),
            bus@ == start.drain(id as int, n),
            handled == envelopes(start.drained(id as int, n)).len(),
            lags@ == gaps(start.drained(id as int, n)),
            stored + failed <= handled,
            policy == SinkPolicy::FailFast ==> failed == 0,
        decreases start.pending(id as int) - n,
    {
        proof {
            lemma_drain_progress(start, id as int, n);
            lemma_drain_step(start, id as int, n);
            lemma_tally_push(start.drained(id as int, n), bus@.signal(id as int));
        }
        let ghost before = bus@;
        let got = bus.receive(id);
        let step = match got {
            Some(delivery) => next_step(delivery),
            None => {
                return None;
            },
        };
        match step {
            SinkStep::Process(envelope) => {
                proof {
                    n = n + 1;
                }
                handled = handled + 1;
                let written = sink.write_event(envelope);
                let on = goes_on(policy, &written);
                match written {
                    Ok(true) => {
                        stored = stored + 1;
                    },
                    Ok(false) => {},
                    Err(_) => {
                        failed = failed + 1;
                    },
                }
                if !on {
                    proof {
                        if start.published.len() <= u64::MAX {
                            law_turn_accounting(start, id as int, n);
                        }
                    }
                    return Some(
                        SinkReport { state: TaskState::Failed, handled, stored, failed, gaps: lags },
                    );
                }
            },
            SinkStep::RecordGap(count) => {
                proof {
                    n = n + 1;
                }
                lags.push(count);
            },
            SinkStep::Finish => {
                assert(bus@.cursors =~= before.cursors);
                proof {
                    if start.published.len() <= u64::MAX {
                        law_turn_accounting(start, id as int, n);
                    }
                }
                return Some(
                    SinkReport { state: TaskState::Completed, handled, stored, failed, gaps: lags },
                );
            },
            SinkStep::Wait => {
                assert(bus@.cursors =~= before.cursors);
                proof {
                    if start.published.len() <= u64::MAX {
                        law_turn_accounting(start, id as int, n);
                    }
                }
                return Some(
                    SinkReport { state: TaskState::Running, handled, stored, failed, gaps: lags },
                );
            },
        }
    }
}

} // verus!
