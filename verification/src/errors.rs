use vstd::prelude::*;

verus! {

/// Error raised when executing a task's command fails before the command
/// itself could report an outcome (for instance when spawning the subprocess
/// fails). Carries a human-readable description.
#[derive(Debug)]
pub struct ExecError {
    pub message: String,
}

impl ExecError {
    /// Wrap a description into an `ExecError`.
    pub fn new(message: String) -> (e: Self)
        ensures
            e.message@ == message@,
    {
        ExecError { message }
    }

    /// The human-readable description of the failure.
    pub fn message(&self) -> (m: String)
        ensures
            m@ == self.message@,
    {
        self.message.clone()
    }
}

/// Why a scheduler operation was refused. Refusals are reported to the caller
/// and leave the scheduler state unchanged.
#[derive(Debug, Clone, Copy, PartialEq, Eq, Structural)]
pub enum SchedulerError {
    /// `add_task` was called with an id that is already registered.
    TaskAlreadyExists,
    /// `drain_task` or `kill_task` was called with an unknown id.
    TaskNotFound,
}

} // verus!
