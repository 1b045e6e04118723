//! An always-on, per-task callback for aggregation (counters, histograms,
//! spans), including for the built-ins that never reach a handler.

use vstd::prelude::*;

verus! {

/// One finished task, borrowed for the duration of the callback.
#[derive(Debug)]
pub struct TaskEvent<'a> {
    /// The id of the workflow the task belongs to.
    pub workflow_id: &'a str,
    /// The task's id.
    pub task_id: &'a str,
    /// The function name: a built-in's canonical name, or a custom handler's
    /// registered name.
    pub function: &'a str,
    /// The recorded status of a dispatched task, `Some(500)` when it failed;
    /// `None` when the handler skipped and no audit entry was recorded.
    pub status: Option<u16>,
    /// Wall-clock duration of the task body only.
    pub duration: core::time::Duration,
}

/// Receives one callback per dispatched task, synchronously, right after
/// the task body returns. An implementation must not block, re-enter the
/// engine or panic.
pub trait ExecutionObserver: Send + Sync + 'static {
    /// Called once per dispatched task.
    fn task_finished(&self, event: &TaskEvent<'_>);
}

} // verus!
