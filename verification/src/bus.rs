//! The broadcast bus: one publish side, any number of subscriptions.
use vstd::prelude::*;
use serde_json::Value;
use tokio::sync::broadcast::{Receiver, Sender};
use crate::capacity::{ceil_power_of_two, lemma_ceil_power_of_two_bounds, round_capacity};
use crate::channel::{
    channel_open, channel_send, channel_subscribe, channel_try_recv, receiver_channel,
    receiver_position, sender_bound, sender_channel, sender_log,
};
use crate::delivery::Delivery;
use crate::model::BusState;

verus! {

/// Why a publish was refused.
#[derive(Debug, Clone, Copy, PartialEq, Eq)]
pub enum PublishError {
    /// Nobody is subscribed: there is nothing to deliver to.
    NoSubscribers,
    /// The publish side was closed.
    Closed,
}

/// A bounded broadcast bus over JSON envelopes.
pub struct Bus {
    sender: Sender<Value>,
    receivers: Vec<Receiver<Value>>,
    retained: usize,
    closed: bool,
}

impl View for Bus {
    type V = BusState;

    closed spec fn view(&self) -> BusState {
        BusState {
            capacity: sender_bound(self.sender),
            published: sender_log(self.sender),
            cursors: Seq::new(
                self.receivers@.len(),
                |i: int| receiver_position(self.receivers@[i]),
            ),
            closed: self.closed,
        }
    }
}

impl Bus {
    /// A well-formed bus has a well-formed state, and retains a number of
    /// envelopes that can be counted.
    pub proof fn lemma_view_wf(&self)
        requires
            self.wf(),
        ensures
            self@.wf(),
            self@.capacity < usize::MAX,
    {
    }

    /// The bus's handles belong to one channel, and none is ahead of it.
    pub closed spec fn wf(&self) -> bool {
        &&& 0 < self.retained < usize::MAX
        &&& self.retained == sender_bound(self.sender)
        &&& forall|i: int|
            0 <= i < self.receivers@.len() ==> {
                &&& receiver_channel(#[trigger] self.receivers@[i]) == sender_channel(self.sender)
                &&& receiver_position(self.receivers@[i]) <= sender_log(self.sender).len()
            }
    }

    /// A bus that retains `capacity` envelopes, rounded up to a power of two.
    /// There is no bus of capacity zero, nor of more than half the address
    /// space.
    pub fn new(capacity: usize) -> (bus: Option<Bus>)
        ensures
            bus is Some <==> 0 < capacity <= usize::MAX / 2,
            bus matches Some(b) ==> b.wf() && b@ == BusState::fresh(
                ceil_power_of_two(capacity as nat),
            ),
    {
        if capacity == 0 || capacity > usize::MAX / 2 {
            return None;
        }
        let retained = round_capacity(capacity);
        let sender = channel_open(capacity);
        let bus = Bus { sender, receivers: Vec::new(), retained, closed: false };
        proof {
            lemma_ceil_power_of_two_bounds(capacity as nat);
            assert(bus@.cursors =~= Seq::<nat>::empty());
        }
        Some(bus)
    }

    /// How many envelopes the bus retains.
    pub fn capacity(&self) -> (n: usize)
        requires
            self.wf(),
        ensures
            n == self@.capacity,
            0 < n < usize::MAX,
    {
        self.retained
    }

    /// Whether the publish side is closed.
    pub fn is_closed(&self) -> (closed: bool)
        ensures
            closed == self@.closed,
    {
        self.closed
    }

    /// How many subscriptions the bus has.
    pub fn subscriber_count(&self) -> (n: usize)
        ensures
            n == self@.cursors.len(),
    {
        self.receivers.len()
    }

    /// Adds a subscription and returns its id. It will receive every envelope
    /// published from now on, and none published before.
    pub fn subscribe(&mut self) -> (id: usize)
        requires
            old(self).wf(),
        ensures
            final(self).wf(),
            id == old(self)@.cursors.len(),
            final(self)@ == old(self)@.subscribe(),
    {
        let rx = channel_subscribe(&self.sender);
        self.receivers.push(rx);
        assert(self@.cursors =~= old(self)@.cursors.push(old(self)@.published.len()));
        self.receivers.len() - 1
    }

    /// Hands `envelope` to every subscription. Refused, with nothing changed,
    /// when the bus is closed or nobody is subscribed.
    pub fn publish(&mut self, envelope: Value) -> (outcome: Result<(), PublishError>)
        requires
            old(self).wf(),
        ensures
            final(self).wf(),
            old(self)@.closed ==> outcome == Err::<(), PublishError>(PublishError::Closed),
            !old(self)@.closed && old(self)@.cursors.len() == 0
                ==> outcome == Err::<(), PublishError>(PublishError::NoSubscribers),
            old(self)@.accepts() ==> outcome is Ok,
            outcome is Ok ==> final(self)@ == old(self)@.publish(envelope),
            outcome is Err ==> final(self)@ == old(self)@,
    {
        if self.closed {
            return Err(PublishError::Closed);
        }
        if self.receivers.len() == 0 {
            return Err(PublishError::NoSubscribers);
        }
        channel_send(&mut self.sender, &self.receivers[0], envelope);
        assert(self@.cursors =~= old(self)@.cursors);
        Ok(())
    }

    /// Closes the publish side. Closing a closed bus changes nothing.
    pub fn close(&mut self)
        requires
            old(self).wf(),
        ensures
            final(self).wf(),
            final(self)@ == old(self)@.close(),
    {
        self.closed = true;
        assert(self@.cursors =~= old(self)@.cursors);
    }

    /// The next delivery for subscription `id`, or `None` if there is no such
    /// subscription.
    pub fn receive(&mut self, id: usize) -> (got: Option<Delivery>)
        requires
            old(self).wf(),
        ensures
            final(self).wf(),
            got is Some <==> old(self)@.has(id as int),
            got is None ==> final(self)@ == old(self)@,
            got matches Some(d) ==> {
                &&& d == old(self)@.signal(id as int)
                &&& final(self)@ == old(self)@.receive(id as int)
            },
    {
        if id >= self.receivers.len() {
            return None;
        }
        let heard = channel_try_recv(&mut self.receivers[id], &self.sender);
        assert(self@.cursors =~= old(self)@.cursors.update(
            id as int,
            old(self)@.advanced(id as int),
        ));
        match heard {
            Delivery::Empty => {
                if self.closed {
                    Some(Delivery::Closed)
                } else {
                    Some(Delivery::Empty)
                }
            },
            other => Some(other),
        }
    }
}

} // verus!
