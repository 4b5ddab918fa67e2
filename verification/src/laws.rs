//! What holds of every bus, whatever the order of publishes and receives.
use vstd::prelude::*;
use serde_json::Value;
use crate::delivery::{closures, envelopes, gaps, missed, total, Delivery};
use crate::model::{is_subsequence, publishes, receives, without_receives, BusState, Op};

verus! {

/// Every operation keeps a bus well formed, keeps its subscriptions and its
/// capacity, and only ever extends what was published.
pub proof fn lemma_step_keeps(s: BusState, op: Op)
    requires
        s.wf(),
    ensures
        s.step(op).wf(),
        s.step(op).capacity == s.capacity,
        s.step(op).cursors.len() >= s.cursors.len(),
        s.published.is_prefix_of(s.step(op).published),
        s.closed ==> s.step(op).closed && s.step(op).published == s.published,
        forall|i: int| s.has(i) ==> s.cursors[i] <= #[trigger] s.step(op).cursors[i],
{
    let t = s.step(op);
    match op {
        Op::Receive(id) => {
            if s.has(id) {
                assert forall|i: int| 0 <= i < t.cursors.len() implies #[trigger] t.cursors[i]
                    <= t.published.len() by {
                    if i != id {
                        assert(t.cursors[i] == s.cursors[i]);
                    }
                }
            }
        },
        _ => {},
    }
}

/// A run keeps a bus well formed, keeps its subscriptions and its capacity,
/// and only ever extends what was published.
pub proof fn lemma_run_keeps(s: BusState, ops: Seq<Op>)
    requires
        s.wf(),
    ensures
        s.run(ops).wf(),
        s.run(ops).capacity == s.capacity,
        s.run(ops).cursors.len() >= s.cursors.len(),
        s.published.is_prefix_of(s.run(ops).published),
        s.run(ops).published.len() <= s.published.len() + publishes(ops),
        s.closed ==> s.run(ops).closed && s.run(ops).published == s.published,
        forall|i: int| s.has(i) ==> s.cursors[i] <= #[trigger] s.run(ops).cursors[i],
    decreases ops.len(),
{
    if ops.len() > 0 {
        lemma_run_keeps(s, ops.drop_last());
        lemma_step_keeps(s.run(ops.drop_last()), ops.last());
    }
}

/// What one more delivery adds to the tallies of what was heard.
pub proof fn lemma_tally_push(heard: Seq<Delivery>, d: Delivery)
    ensures
        gaps(heard.push(d)) == (match d {
            Delivery::Lagged(n) => gaps(heard).push(n),
            _ => gaps(heard),
        }),
        envelopes(heard.push(d)) == (match d {
            Delivery::Envelope(e) => envelopes(heard).push(e),
            _ => envelopes(heard),
        }),
        missed(heard.push(d)) == (match d {
            Delivery::Lagged(n) => missed(heard) + n as nat,
            _ => missed(heard),
        }),
        closures(heard.push(d)) == (match d {
            Delivery::Closed => closures(heard) + 1,
            _ => closures(heard),
        }),
{
    assert(heard.push(d).drop_last() =~= heard);
    assert(heard.push(d).last() == d);
}

/// The envelopes missed are the sum of the reported gaps.
pub proof fn lemma_missed_is_total_of_gaps(heard: Seq<Delivery>)
    ensures
        missed(heard) == total(gaps(heard)),
    decreases heard.len(),
{
    if heard.len() > 0 {
        lemma_missed_is_total_of_gaps(heard.drop_last());
        match heard.last() {
            Delivery::Lagged(n) => {
                assert(gaps(heard.drop_last()).push(n).drop_last() =~= gaps(heard.drop_last()));
            },
            _ => {},
        }
    }
}

/// One more receive in a row: the bus moves by one receive, and what was
/// heard grows by what the subscription was handed.
pub proof fn lemma_drain_step(s: BusState, id: int, n: nat)
    requires
        s.wf(),
        s.has(id),
    ensures
        s.drain(id, n).wf(),
        s.drain(id, n).has(id),
        s.drain(id, 0) == s,
        s.drained(id, 0) == Seq::<Delivery>::empty(),
        s.drain(id, n + 1) == s.drain(id, n).receive(id),
        s.drained(id, n + 1) == s.drained(id, n).push(s.drain(id, n).signal(id)),
{
    lemma_run_keeps(s, receives(id, n));
    assert(receives(id, n + 1).drop_last() =~= receives(id, n));
    assert(receives(id, n + 1).last() == Op::Receive(id));
    assert(receives(id, 0) =~= Seq::<Op>::empty());
}

proof fn lemma_subsequence_grows(part: Seq<Value>, whole: Seq<Value>, more: Seq<Value>)
    requires
        is_subsequence(part, whole),
    ensures
        is_subsequence(part, whole + more),
    decreases more.len(),
{
    if more.len() == 0 {
        assert(whole + more =~= whole);
    } else {
        lemma_subsequence_grows(part, whole, more.drop_last());
        assert((whole + more).drop_last() =~= whole + more.drop_last());
    }
}

proof fn lemma_subsequence_push(part: Seq<Value>, whole: Seq<Value>, e: Value)
    requires
        is_subsequence(part, whole),
    ensures
        is_subsequence(part.push(e), whole.push(e)),
{
    assert(part.push(e).drop_last() =~= part);
    assert(whole.push(e).drop_last() =~= whole);
}

/// Lag is accounted for exactly. Over any run, the envelopes a subscription
/// was handed and the envelopes its lag signals reported as missed add up to
/// the distance its cursor moved; once it has passed everything published,
/// they add up to everything published since it started. The envelopes it
/// was handed come in publish order.
pub proof fn law_lag_accounting(s: BusState, ops: Seq<Op>, id: int)
    requires
        s.wf(),
        s.has(id),
        s.run(ops).published.len() <= u64::MAX,
    ensures
        s.run(ops).has(id),
        s.cursors[id] <= s.run(ops).cursors[id] <= s.run(ops).published.len(),
        envelopes(s.heard(ops, id)).len() + missed(s.heard(ops, id)) == s.run(ops).cursors[id]
            - s.cursors[id],
        is_subsequence(
            envelopes(s.heard(ops, id)),
            s.run(ops).published.subrange(s.cursors[id] as int, s.run(ops).cursors[id] as int),
        ),
    decreases ops.len(),
{
    if ops.len() > 0 {
        let before = s.run(ops.drop_last());
        let after = s.run(ops);
        let earlier = s.heard(ops.drop_last(), id);
        lemma_run_keeps(s, ops.drop_last());
        lemma_step_keeps(before, ops.last());
        law_lag_accounting(s, ops.drop_last(), id);
        let from = s.cursors[id] as int;
        let old_window = before.published.subrange(from, before.cursors[id] as int);
        let new_window = after.published.subrange(from, after.cursors[id] as int);
        if ops.last() == Op::Receive(id) {
            let d = before.signal(id);
            lemma_tally_push(earlier, d);
            assert(after.published == before.published);
            match d {
                Delivery::Envelope(e) => {
                    assert(new_window =~= old_window.push(e));
                    lemma_subsequence_push(envelopes(earlier), old_window, e);
                },
                Delivery::Lagged(n) => {
                    let skipped = before.published.subrange(
                        before.cursors[id] as int,
                        after.cursors[id] as int,
                    );
                    assert(new_window =~= old_window + skipped);
                    lemma_subsequence_grows(envelopes(earlier), old_window, skipped);
                },
                _ => {
                    assert(new_window =~= old_window);
                },
            }
        } else {
            assert(after.cursors[id] == before.cursors[id]);
            assert(new_window =~= old_window);
        }
    } else {
        assert(s.published.subrange(s.cursors[id] as int, s.cursors[id] as int) =~= Seq::<
            Value,
        >::empty());
    }
}

/// A lag signal counts exactly the envelopes that were dropped before the
/// subscription read them, and delivery resumes from the oldest envelope
/// still retained.
pub proof fn law_lag_is_exact(s: BusState, id: int)
    requires
        s.wf(),
        s.has(id),
        s.backlog(id) > s.capacity,
        s.published.len() <= u64::MAX,
    ensures
        s.signal(id) matches Delivery::Lagged(n) && n == s.backlog(id) - s.capacity,
        s.receive(id).backlog(id) == s.capacity,
        s.receive(id).signal(id) == Delivery::Envelope(
            s.published[s.published.len() - s.capacity],
        ),
{
}

/// No loss within capacity. A subscription that has nothing pending when a
/// run starts, over a run with no more publishes than the bus retains, meets
/// no lag signal and is handed exactly the envelopes published during the
/// run, in publish order, up to where it has read; once it has read up to the
/// end, it has been handed all of them.
pub proof fn law_in_order_without_loss(s: BusState, ops: Seq<Op>, id: int)
    requires
        s.wf(),
        s.has(id),
        s.cursors[id] == s.published.len(),
        publishes(ops) <= s.capacity,
    ensures
        s.run(ops).has(id),
        forall|k: int| 0 <= k < s.heard(ops, id).len() ==> !(#[trigger] s.heard(ops, id)[k] is Lagged),
        envelopes(s.heard(ops, id)) == s.run(ops).published.subrange(
            s.published.len() as int,
            s.run(ops).cursors[id] as int,
        ),
        s.run(ops).backlog(id) == 0 ==> envelopes(s.heard(ops, id)) == s.run(ops).published.skip(
            s.published.len() as int,
        ),
    decreases ops.len(),
{
    let from = s.published.len() as int;
    lemma_run_keeps(s, ops);
    if ops.len() > 0 {
        let before = s.run(ops.drop_last());
        let after = s.run(ops);
        let earlier = s.heard(ops.drop_last(), id);
        lemma_run_keeps(s, ops.drop_last());
        lemma_step_keeps(before, ops.last());
        law_in_order_without_loss(s, ops.drop_last(), id);
        let old_window = before.published.subrange(from, before.cursors[id] as int);
        let new_window = after.published.subrange(from, after.cursors[id] as int);
        if ops.last() == Op::Receive(id) {
            let d = before.signal(id);
            lemma_tally_push(earlier, d);
            assert(before.backlog(id) <= before.capacity);
            match d {
                Delivery::Envelope(e) => {
                    assert(new_window =~= old_window.push(e));
                },
                _ => {
                    assert(new_window =~= old_window);
                },
            }
        } else {
            assert(after.cursors[id] == before.cursors[id]);
            assert(new_window =~= old_window);
        }
    } else {
        assert(s.published.subrange(from, from) =~= Seq::<Value>::empty());
    }
    if s.run(ops).backlog(id) == 0 {
        assert(s.run(ops).published.subrange(from, s.run(ops).cursors[id] as int)
            =~= s.run(ops).published.skip(from));
    }
}

/// A subscription learns of closure exactly when the bus is closed and it has
/// nothing left to read, and from then on nothing changes for it.
pub proof fn law_closed_when_drained(s: BusState, id: int)
    requires
        s.wf(),
        s.has(id),
    ensures
        s.signal(id) == Delivery::Closed <==> s.closed && s.backlog(id) == 0,
        s.signal(id) == Delivery::Closed ==> s.receive(id) == s,
{
    if s.signal(id) == Delivery::Closed {
        assert(s.receive(id).cursors =~= s.cursors);
    }
}

/// A closed bus stays closed, and nothing more is published on it.
pub proof fn law_closing_is_final(s: BusState, ops: Seq<Op>)
    requires
        s.wf(),
        s.closed,
    ensures
        s.run(ops).closed,
        s.run(ops).published == s.published,
{
    lemma_run_keeps(s, ops);
}

/// Closing twice is closing once.
pub proof fn law_close_is_idempotent(s: BusState)
    ensures
        s.close().close() == s.close(),
{
}

/// Receiving in a row: each of the first `pending` receives of a
/// subscription hands it a lag signal or an envelope and touches nothing but
/// its own cursor; after them it has passed everything published, and is told
/// that the bus is closed or that there is nothing yet.
pub proof fn lemma_drain_progress(s: BusState, id: int, n: nat)
    requires
        s.wf(),
        s.has(id),
        n <= s.pending(id),
    ensures
        s.drain(id, n).wf(),
        s.drain(id, n).has(id),
        s.drain(id, n).closed == s.closed,
        s.drain(id, n).published == s.published,
        s.drain(id, n).capacity == s.capacity,
        s.drain(id, n).cursors == s.cursors.update(id, s.drain(id, n).cursors[id]),
        s.drain(id, n).pending(id) == s.pending(id) - n,
        n < s.pending(id) ==> (s.drain(id, n).signal(id) is Envelope || s.drain(id, n).signal(
            id,
        ) is Lagged),
        n == s.pending(id) ==> s.drain(id, n).backlog(id) == 0 && s.drain(id, n).signal(id) == (
        if s.closed {
            Delivery::Closed
        } else {
            Delivery::Empty
        }),
        closures(s.drained(id, n)) == 0,
    decreases n,
{
    lemma_drain_step(s, id, n);
    if n > 0 {
        let before = s.drain(id, (n - 1) as nat);
        lemma_drain_progress(s, id, (n - 1) as nat);
        lemma_drain_step(s, id, (n - 1) as nat);
        lemma_tally_push(s.drained(id, (n - 1) as nat), before.signal(id));
        assert(s.drain(id, n).cursors =~= s.cursors.update(id, s.drain(id, n).cursors[id]));
    } else {
        assert(s.cursors =~= s.cursors.update(id, s.cursors[id]));
    }
}

/// A subscription that is not overrun is handed, receive after receive, the
/// envelopes that wait for it, in publish order, and no lag signal.
pub proof fn lemma_drain_within_capacity(s: BusState, id: int, n: nat)
    requires
        s.wf(),
        s.has(id),
        s.backlog(id) <= s.capacity,
        n <= s.backlog(id),
    ensures
        s.drain(id, n).cursors[id] == s.cursors[id] + n,
        envelopes(s.drained(id, n)) == s.published.subrange(
            s.cursors[id] as int,
            s.cursors[id] as int + n,
        ),
        gaps(s.drained(id, n)) == Seq::<u64>::empty(),
        missed(s.drained(id, n)) == 0,
    decreases n,
{
    lemma_drain_step(s, id, n);
    let from = s.cursors[id] as int;
    if n > 0 {
        let m = (n - 1) as nat;
        let before = s.drain(id, m);
        lemma_drain_within_capacity(s, id, m);
        lemma_drain_progress(s, id, m);
        lemma_drain_step(s, id, m);
        lemma_tally_push(s.drained(id, m), before.signal(id));
        assert(before.backlog(id) == s.backlog(id) - m);
        assert(s.published.subrange(from, from + n) =~= s.published.subrange(from, from + m).push(
            s.published[from + m],
        ));
    } else {
        assert(s.published.subrange(from, from) =~= Seq::<Value>::empty());
    }
}

/// After closure every subscription reaches the closed signal exactly once it
/// was handed every envelope still retained for it: none of its first
/// `pending` receives tells it of closure, and the next one does.
pub proof fn law_drain_ends_in_closure(s: BusState, id: int, n: nat)
    requires
        s.wf(),
        s.has(id),
        s.closed,
        n <= s.pending(id),
    ensures
        closures(s.drained(id, n)) == 0,
        n < s.pending(id) ==> s.drain(id, n).signal(id) != Delivery::Closed,
        n == s.pending(id) ==> s.drain(id, n).signal(id) == Delivery::Closed,
        n == s.pending(id) ==> s.drain(id, n).receive(id) == s.drain(id, n),
{
    lemma_drain_progress(s, id, n);
    if n == s.pending(id) {
        law_closed_when_drained(s.drain(id, n), id);
    }
}

/// Subscriptions do not disturb each other: a receive on one changes neither
/// what another is handed next, nor what was published, nor whether a publish
/// is accepted.
pub proof fn law_receive_leaves_others(s: BusState, id: int, other: int)
    requires
        s.has(id),
        s.has(other),
        id != other,
    ensures
        s.receive(id).signal(other) == s.signal(other),
        s.receive(id).cursors[other] == s.cursors[other],
        s.receive(id).published == s.published,
        s.receive(id).accepts() == s.accepts(),
        s.receive(id).closed == s.closed,
{
}

/// Whatever one subscription does, or stops doing, the others are handed the
/// same: taking every receive of subscription `id` out of a run changes
/// nothing that another subscription hears.
pub proof fn law_subscriptions_are_independent(s: BusState, ops: Seq<Op>, id: int, other: int)
    requires
        id != other,
    ensures
        s.heard(without_receives(ops, id), other) == s.heard(ops, other),
        s.run(without_receives(ops, id)).published == s.run(ops).published,
        s.run(without_receives(ops, id)).closed == s.run(ops).closed,
        s.run(without_receives(ops, id)).capacity == s.run(ops).capacity,
        s.run(without_receives(ops, id)).cursors.len() == s.run(ops).cursors.len(),
        forall|j: int|
            j != id && s.run(ops).has(j) ==> #[trigger] s.run(without_receives(ops, id)).cursors[j]
                == s.run(ops).cursors[j],
    decreases ops.len(),
{
    if ops.len() > 0 {
        let rest = ops.drop_last();
        let op = ops.last();
        law_subscriptions_are_independent(s, rest, id, other);
        let full = s.run(rest);
        let thin = s.run(without_receives(rest, id));
        if op == Op::Receive(id) {
            assert(without_receives(ops, id) == without_receives(rest, id));
        } else {
            let thin_ops = without_receives(rest, id).push(op);
            assert(without_receives(ops, id) == thin_ops);
            assert(thin_ops.drop_last() =~= without_receives(rest, id));
            assert(thin_ops.last() == op);
            match op {
                Op::Receive(r) => {
                    if full.has(r) {
                        assert(thin.signal(r) == full.signal(r));
                        assert(thin.advanced(r) == full.advanced(r));
                    }
                },
                _ => {},
            }
        }
    }
}

/// A subscription starts with nothing to read: it is not handed what was
/// published before it subscribed.
pub proof fn law_no_replay(s: BusState)
    requires
        s.wf(),
    ensures
        s.subscribe().has(s.cursors.len() as int),
        s.subscribe().backlog(s.cursors.len() as int) == 0,
        s.subscribe().signal(s.cursors.len() as int) == (if s.closed {
            Delivery::Closed
        } else {
            Delivery::Empty
        }),
{
}

/// A publish never waits for a slow subscription: whether it is accepted
/// does not depend on how far any subscription has read.
pub proof fn law_publish_never_waits(s: BusState, cursors: Seq<nat>)
    requires
        cursors.len() == s.cursors.len(),
    ensures
        (BusState { cursors, ..s }).accepts() == s.accepts(),
{
}

/// One turn of receives accounts for every envelope it passed: what was
/// handed over and what the lag signals report add up to the distance the
/// cursor moved.
pub proof fn law_turn_accounting(s: BusState, id: int, n: nat)
    requires
        s.wf(),
        s.has(id),
        n <= s.pending(id),
        s.published.len() <= u64::MAX,
    ensures
        envelopes(s.drained(id, n)).len() + total(gaps(s.drained(id, n))) == s.drain(id, n).cursors[id]
            - s.cursors[id],
{
    lemma_drain_progress(s, id, n);
    law_lag_accounting(s, receives(id, n), id);
    lemma_missed_is_total_of_gaps(s.drained(id, n));
}

} // verus!
