//! The mathematical model of the bus: what was published, how much is
//! retained, how far each subscription has read, and whether the publish
//! side is closed.
use vstd::prelude::*;
use serde_json::Value;
use crate::delivery::Delivery;

verus! {

/// The state of a bus.
pub struct BusState {
    /// How many of the most recent envelopes are retained.
    pub capacity: nat,
    /// Every envelope published so far, oldest first.
    pub published: Seq<Value>,
    /// For each subscription, how many envelopes it has passed, read or skipped.
    pub cursors: Seq<nat>,
    /// Whether the publish side is closed.
    pub closed: bool,
}

impl BusState {
    /// A new bus: open, nothing published, nobody subscribed.
    pub open spec fn fresh(capacity: nat) -> BusState {
        BusState { capacity, published: Seq::empty(), cursors: Seq::empty(), closed: false }
    }

    /// No subscription is ahead of what was published, and something is retained.
    pub open spec fn wf(self) -> bool {
        &&& self.capacity > 0
        &&& forall|i: int| 0 <= i < self.cursors.len() ==> #[trigger] self.cursors[i] <= self.published.len()
    }

    /// Whether `id` names a subscription.
    pub open spec fn has(self, id: int) -> bool {
        0 <= id < self.cursors.len()
    }

    /// How many published envelopes subscription `id` has not passed yet.
    pub open spec fn backlog(self, id: int) -> nat {
        (self.published.len() - self.cursors[id]) as nat
    }

    /// How many of those were dropped before subscription `id` read them.
    pub open spec fn overrun(self, id: int) -> nat {
        if self.backlog(id) > self.capacity {
            (self.backlog(id) - self.capacity) as nat
        } else {
            0
        }
    }

    /// Whether a publish is accepted: the bus is open and somebody listens.
    pub open spec fn accepts(self) -> bool {
        !self.closed && self.cursors.len() > 0
    }

    /// The bus after one more subscription, which starts after everything
    /// published so far.
    pub open spec fn subscribe(self) -> BusState {
        BusState { cursors: self.cursors.push(self.published.len()), ..self }
    }

    /// The bus after an accepted publish of `envelope`.
    pub open spec fn publish(self, envelope: Value) -> BusState {
        BusState { published: self.published.push(envelope), ..self }
    }

    /// The bus after its publish side is closed.
    pub open spec fn close(self) -> BusState {
        BusState { closed: true, ..self }
    }

    /// What subscription `id` is handed by its next receive.
    pub open spec fn signal(self, id: int) -> Delivery {
        if self.backlog(id) > self.capacity {
            Delivery::Lagged(self.overrun(id) as u64)
        } else if self.backlog(id) > 0 {
            Delivery::Envelope(self.published[self.cursors[id] as int])
        } else if self.closed {
            Delivery::Closed
        } else {
            Delivery::Empty
        }
    }

    /// Where the cursor of subscription `id` stands after its next receive.
    pub open spec fn advanced(self, id: int) -> nat {
        if self.backlog(id) > self.capacity {
            (self.published.len() - self.capacity) as nat
        } else if self.backlog(id) > 0 {
            self.cursors[id] + 1
        } else {
            self.cursors[id]
        }
    }

    /// The bus after subscription `id` has received once.
    pub open spec fn receive(self, id: int) -> BusState {
        BusState { cursors: self.cursors.update(id, self.advanced(id)), ..self }
    }

    /// The bus after one operation. A refused publish and a receive on a
    /// subscription that does not exist change nothing.
    pub open spec fn step(self, op: Op) -> BusState {
        match op {
            Op::Subscribe => self.subscribe(),
            Op::Publish(envelope) => if self.accepts() {
                self.publish(envelope)
            } else {
                self
            },
            Op::Close => self.close(),
            Op::Receive(id) => if self.has(id) {
                self.receive(id)
            } else {
                self
            },
        }
    }

    /// The bus after the operations of `ops`, in order.
    pub open spec fn run(self, ops: Seq<Op>) -> BusState
        decreases ops.len(),
    {
        if ops.len() == 0 {
            self
        } else {
            self.run(ops.drop_last()).step(ops.last())
        }
    }

    /// What subscription `id` is handed, in order, over the operations of `ops`.
    pub open spec fn heard(self, ops: Seq<Op>, id: int) -> Seq<Delivery>
        decreases ops.len(),
    {
        if ops.len() == 0 {
            Seq::empty()
        } else {
            let before = self.run(ops.drop_last());
            let earlier = self.heard(ops.drop_last(), id);
            if ops.last() == Op::Receive(id) && before.has(id) {
                earlier.push(before.signal(id))
            } else {
                earlier
            }
        }
    }

    /// The bus after subscription `id` has received `n` times in a row.
    pub open spec fn drain(self, id: int, n: nat) -> BusState {
        self.run(receives(id, n))
    }

    /// What subscription `id` is handed by `n` receives in a row.
    pub open spec fn drained(self, id: int, n: nat) -> Seq<Delivery> {
        self.heard(receives(id, n), id)
    }

    /// How many receives subscription `id` needs to pass everything that is
    /// published: one for the lag signal if it was overrun, one for each
    /// envelope still retained for it.
    pub open spec fn pending(self, id: int) -> nat {
        if self.backlog(id) > self.capacity {
            self.capacity + 1
        } else {
            self.backlog(id)
        }
    }
}

/// One operation on a bus.
pub enum Op {
    /// A new subscription.
    Subscribe,
    /// A publish of one envelope.
    Publish(Value),
    /// Closing the publish side.
    Close,
    /// One receive on the subscription with this id.
    Receive(int),
}

/// `n` receives in a row on subscription `id`.
pub open spec fn receives(id: int, n: nat) -> Seq<Op> {
    Seq::new(n, |k: int| Op::Receive(id))
}

/// How many publishes `ops` holds.
pub open spec fn publishes(ops: Seq<Op>) -> nat
    decreases ops.len(),
{
    if ops.len() == 0 {
        0
    } else if ops.last() is Publish {
        publishes(ops.drop_last()) + 1
    } else {
        publishes(ops.drop_last())
    }
}

/// `ops` without the receives of subscription `id`.
pub open spec fn without_receives(ops: Seq<Op>, id: int) -> Seq<Op>
    decreases ops.len(),
{
    if ops.len() == 0 {
        Seq::empty()
    } else if ops.last() == Op::Receive(id) {
        without_receives(ops.drop_last(), id)
    } else {
        without_receives(ops.drop_last(), id).push(ops.last())
    }
}

/// Whether `part` can be had from `whole` by deleting elements.
pub open spec fn is_subsequence(part: Seq<Value>, whole: Seq<Value>) -> bool
    decreases whole.len(),
{
    if part.len() == 0 {
        true
    } else if whole.len() == 0 {
        false
    } else {
        ||| (part.last() == whole.last() && is_subsequence(part.drop_last(), whole.drop_last()))
        ||| is_subsequence(part, whole.drop_last())
    }
}

} // verus!
