//! The broadcast channel that carries the envelopes.
//!
//! Everything in this file is taken on trust: the channel is tokio's, and the
//! contracts below restate what its documentation and source say of it. A
//! channel's state is shared by its handles, so the facts are named on the
//! sender (what was sent, how much is retained) and on each receiver (how far
//! it has read); a call that depends on the channel takes the sender with it.
use vstd::prelude::*;
use serde_json::Value;
use tokio::sync::broadcast::error::TryRecvError;
use tokio::sync::broadcast::{Receiver, Sender};
use crate::capacity::ceil_power_of_two;
use crate::delivery::Delivery;

verus! {

/// `serde_json::Value`, carried through unread.
#[verifier::external_type_specification]
#[verifier::external_body]
pub struct ExValue(Value);

/// `tokio::sync::broadcast::Sender`.
#[verifier::external_type_specification]
#[verifier::external_body]
#[verifier::reject_recursive_types(T)]
pub struct ExSender<T>(Sender<T>);

/// `tokio::sync::broadcast::Receiver`.
#[verifier::external_type_specification]
#[verifier::external_body]
#[verifier::reject_recursive_types(T)]
pub struct ExReceiver<T>(Receiver<T>);

/// The channel that `tx` sends on.
pub uninterp spec fn sender_channel(tx: Sender<Value>) -> int;

/// Every value sent on the channel of `tx` so far, oldest first.
pub uninterp spec fn sender_log(tx: Sender<Value>) -> Seq<Value>;

/// How many of the most recent values the channel of `tx` retains.
pub uninterp spec fn sender_bound(tx: Sender<Value>) -> nat;

/// The channel that `rx` listens to.
pub uninterp spec fn receiver_channel(rx: Receiver<Value>) -> int;

/// How many values of its channel's log `rx` has passed, read or skipped.
pub uninterp spec fn receiver_position(rx: Receiver<Value>) -> nat;

/// `Sender::new`: a channel with no receivers and nothing sent. The channel
/// retains the requested capacity rounded up to a power of two. The call
/// panics on a capacity of zero or above `usize::MAX / 2`.
#[verifier::external_body]
pub(crate) fn channel_open(capacity: usize) -> (tx: Sender<Value>)
    requires
        0 < capacity <= usize::MAX / 2,
    ensures
        sender_log(tx) == Seq::<Value>::empty(),
        sender_bound(tx) == ceil_power_of_two(capacity as nat),
{
    Sender::new(capacity)
}

/// `Sender::subscribe`: a receiver on the sender's channel that starts after
/// everything sent so far. (The call panics at `usize::MAX / 4` live
/// receivers, more than an address space can hold.)
#[verifier::external_body]
pub(crate) fn channel_subscribe(tx: &Sender<Value>) -> (rx: Receiver<Value>)
    ensures
        receiver_channel(rx) == sender_channel(*tx),
        receiver_position(rx) == sender_log(*tx).len(),
{
    tx.subscribe()
}

/// `Sender::send`: appends the value to the channel's log. A send fails only
/// when the channel has no live receiver; `listener` is one.
#[verifier::external_body]
pub(crate) fn channel_send(tx: &mut Sender<Value>, listener: &Receiver<Value>, value: Value)
    requires
        receiver_channel(*listener) == sender_channel(*old(tx)),
    ensures
        sender_log(*final(tx)) == sender_log(*old(tx)).push(value),
        sender_bound(*final(tx)) == sender_bound(*old(tx)),
        sender_channel(*final(tx)) == sender_channel(*old(tx)),
{
    let _ = tx.send(value);
}

/// `Receiver::try_recv`, on a channel whose sender `tx` is alive. A receiver
/// more than the retained number of values behind is told by how many it
/// lags, and moves to the oldest retained value; otherwise it gets a copy of
/// the next value, or learns that there is none yet. The channel is open
/// while its sender lives, so `Closed` does not come.
#[verifier::external_body]
pub(crate) fn channel_try_recv(rx: &mut Receiver<Value>, tx: &Sender<Value>) -> (got: Delivery)
    requires
        receiver_channel(*old(rx)) == sender_channel(*tx),
        receiver_position(*old(rx)) <= sender_log(*tx).len(),
    ensures
        receiver_channel(*final(rx)) == receiver_channel(*old(rx)),
        ({
            let log = sender_log(*tx);
            let at = receiver_position(*old(rx));
            let behind = log.len() - at;
            let held = sender_bound(*tx);
            if behind > held {
                &&& got matches Delivery::Lagged(n)
                &&& n == behind - held
                &&& receiver_position(*final(rx)) == log.len() - held
            } else if behind > 0 {
                &&& got == Delivery::Envelope(log[at as int])
                &&& receiver_position(*final(rx)) == at + 1
            } else {
                &&& got == Delivery::Empty
                &&& receiver_position(*final(rx)) == at
            }
        }),
{
    match rx.try_recv() {
        Ok(value) => Delivery::Envelope(value),
        Err(TryRecvError::Lagged(n)) => Delivery::Lagged(n),
        Err(TryRecvError::Closed) => Delivery::Closed,
        Err(TryRecvError::Empty) => Delivery::Empty,
    }
}

} // verus!
