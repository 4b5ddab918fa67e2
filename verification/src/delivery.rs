//! What a subscription yields when asked for its next envelope.
use vstd::prelude::*;
use serde_json::Value;

verus! {

/// The outcome of one receive on a subscription.
#[derive(Debug, PartialEq)]
pub enum Delivery {
    /// The next envelope, in publish order.
    Envelope(Value),
    /// The subscription fell behind: this many envelopes were dropped unread,
    /// and delivery resumes from the oldest envelope still retained.
    Lagged(u64),
    /// The bus is closed and this subscription has nothing left to read.
    Closed,
    /// Nothing to read yet; the bus is still open.
    Empty,
}

/// The envelopes among `heard`, in order.
pub open spec fn envelopes(heard: Seq<Delivery>) -> Seq<Value>
    decreases heard.len(),
{
    if heard.len() == 0 {
        Seq::empty()
    } else {
        match heard.last() {
            Delivery::Envelope(e) => envelopes(heard.drop_last()).push(e),
            _ => envelopes(heard.drop_last()),
        }
    }
}

/// The total number of envelopes that the lag signals among `heard` report.
pub open spec fn missed(heard: Seq<Delivery>) -> nat
    decreases heard.len(),
{
    if heard.len() == 0 {
        0
    } else {
        match heard.last() {
            Delivery::Lagged(n) => missed(heard.drop_last()) + n as nat,
            _ => missed(heard.drop_last()),
        }
    }
}

/// The counts that the lag signals among `heard` report, in order.
pub open spec fn gaps(heard: Seq<Delivery>) -> Seq<u64>
    decreases heard.len(),
{
    if heard.len() == 0 {
        Seq::empty()
    } else {
        match heard.last() {
            Delivery::Lagged(n) => gaps(heard.drop_last()).push(n),
            _ => gaps(heard.drop_last()),
        }
    }
}

/// The sum of `counts`.
pub open spec fn total(counts: Seq<u64>) -> nat
    decreases counts.len(),
{
    if counts.len() == 0 {
        0
    } else {
        total(counts.drop_last()) + counts.last() as nat
    }
}

/// How many times `heard` reports closure.
pub open spec fn closures(heard: Seq<Delivery>) -> nat
    decreases heard.len(),
{
    if heard.len() == 0 {
        0
    } else {
        match heard.last() {
            Delivery::Closed => closures(heard.drop_last()) + 1,
            _ => closures(heard.drop_last()),
        }
    }
}

} // verus!
