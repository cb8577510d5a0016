//! Notifications that the store's callers exchange about task lifecycles.

use vstd::prelude::*;

use crate::state::types::{TaskId, TaskStatus};

verus! {

/// One observable change of the task state, as handed to event consumers.
#[derive(Debug)]
pub enum StateEvent {
    TaskCreated(TaskId),
    TaskUpdated(TaskId, TaskStatus),
    TaskCompleted(TaskId),
    TaskFailed(TaskId, String),
    DependencyResolved(TaskId, Vec<TaskId>),
    SnapshotCreated(u32),
}

} // verus!
