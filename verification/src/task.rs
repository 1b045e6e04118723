//! Per-task options.

use vstd::prelude::*;

verus! {

/// When a task's own outcome ends the workflow. Absent means
/// [`HaltOn::Never`].
#[derive(Debug, Clone, Copy, PartialEq, Eq, Structural)]
#[non_exhaustive]
pub enum HaltOn {
    /// Never halt on outcome (the default).
    Never,
    /// Halt once the task has run and failed: a recorded status of `400` or
    /// above.
    Failure,
}

impl Default for HaltOn {
    fn default() -> (r: HaltOn)
        ensures
            r == HaltOn::Never,
    {
        HaltOn::Never
    }
}

} // verus!
