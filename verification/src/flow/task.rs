//! The life of a task: a source or a sink runs, then completes or fails.
use vstd::prelude::*;

verus! {

/// Where a task stands. A task that has completed or failed stays so.
#[derive(Debug, Clone, Copy, PartialEq, Eq, Structural)]
pub enum TaskState {
    /// Still at work.
    Running,
    /// Ended with success.
    Completed,
    /// Ended with a failure.
    Failed,
}

impl TaskState {
    /// Whether the task has ended.
    pub open spec fn spec_is_terminal(self) -> bool {
        self != TaskState::Running
    }

    /// Whether the task has ended.
    #[verifier::when_used_as_spec(spec_is_terminal)]
    pub fn is_terminal(self) -> (ended: bool)
        ensures
            ended == self.spec_is_terminal(),
    {
        match self {
            TaskState::Running => false,
            _ => true,
        }
    }

    /// The state after the task reported how it ended: a running task
    /// completes or fails; one that had ended already stays as it was.
    pub open spec fn spec_settle(self, succeeded: bool) -> TaskState {
        match self {
            TaskState::Running => if succeeded {
                TaskState::Completed
            } else {
                TaskState::Failed
            },
            ended => ended,
        }
    }

    /// The state after the task reported how it ended: a running task
    /// completes or fails; one that had ended already stays as it was.
    #[verifier::when_used_as_spec(spec_settle)]
    pub fn settle(self, succeeded: bool) -> (next: TaskState)
        ensures
            next == self.spec_settle(succeeded),
            next.spec_is_terminal(),
            self.spec_is_terminal() ==> next == self,
    {
        match self {
            TaskState::Running => if succeeded {
                TaskState::Completed
            } else {
                TaskState::Failed
            },
            ended => ended,
        }
    }
}

} // verus!
