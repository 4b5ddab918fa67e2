//! Sources: the producers of a flow.
use vstd::prelude::*;
use serde_json::Value;
use crate::flow::task::TaskState;

pub mod chirpstack;

verus! {

/// Why a source could not produce further envelopes.
#[derive(Debug)]
pub struct ProductionError {
    pub reason: String,
}

/// What a source produced: its envelopes in emission order and, if
/// production broke off, why.
#[derive(Debug)]
pub struct Production {
    pub events: Vec<Value>,
    pub failure: Option<ProductionError>,
}

impl Production {
    /// How the source task ended: it failed exactly if production broke off.
    pub open spec fn spec_state(self) -> TaskState {
        if self.failure is None {
            TaskState::Completed
        } else {
            TaskState::Failed
        }
    }

    /// How the source task ended: it failed exactly if production broke off.
    pub fn state(&self) -> (state: TaskState)
        ensures
            state == self.spec_state(),
    {
        match &self.failure {
            None => TaskState::Completed,
            Some(_) => TaskState::Failed,
        }
    }
}

/// A producer of envelopes.
pub trait EventSource {
    /// Produces the source's envelopes, in the order in which they are to be
    /// published.
    fn read_events(&self) -> Production;
}

} // verus!
