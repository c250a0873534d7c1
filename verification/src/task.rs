//! What the task manager remembers of the tasks it has run.

use vstd::prelude::*;

verus! {

/// At least one task of the node failed.
#[derive(Debug, Clone, Copy, PartialEq, Eq, Structural)]
pub struct AtLeastOneTaskFailed;

impl AtLeastOneTaskFailed {
    /// The text of the error.
    pub open spec fn text(self) -> Seq<char> {
        "At least one task failed, please consult the logs"@
    }

    /// The text of the error.
    pub fn message(&self) -> (text: String)
        ensures
            text@ == self.text(),
    {
        "At least one task failed, please consult the logs".to_string()
    }
}

/// The record of how the tasks of a node ended.
#[derive(Debug, Clone, Copy, PartialEq, Eq, Structural)]
pub struct TaskLedger {
    pub failure: bool,
}

impl TaskLedger {
    /// The record of no task.
    pub fn new() -> (ledger: TaskLedger)
        ensures
            !ledger.failure,
    {
        TaskLedger { failure: false }
    }

    /// Records how one task ended. A failure is never forgotten.
    pub fn record(&mut self, failed: bool)
        ensures
            final(self).failure == (old(self).failure || failed),
    {
        if failed {
            self.failure = true;
        }
    }

    /// Whether the node is to shut down: it is once a task has failed.
    pub fn must_shut_down(&self) -> (r: bool)
        ensures
            r == self.failure,
    {
        self.failure
    }

    /// How the node ended, once every task is through: with an error
    /// where any task failed.
    pub fn wait_all(&self) -> (r: Result<(), AtLeastOneTaskFailed>)
        ensures
            r is Err <==> self.failure,
    {
        if self.failure {
            Err(AtLeastOneTaskFailed)
        } else {
            Ok(())
        }
    }
}

} // verus!
