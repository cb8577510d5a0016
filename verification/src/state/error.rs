//! The error taxonomy of the task store and dependency graph.

use vstd::prelude::*;

verus! {

use vstd::string::StringExecFns;

/// Every failing operation of the store or the graph reports one of these
/// kinds, so callers can branch on the kind rather than on message text.
/// Each variant carries the identifier (or, for `InvalidState`, a
/// description) of the offending item.
#[derive(Debug)]
pub enum StateError {
    /// An operation referenced a task id absent from the store.
    TaskNotFound(String),
    /// `create_task` was called with an id that is already present.
    TaskAlreadyExists(String),
    /// Registering the requested dependencies would close a cycle.
    CircularDependency(String),
    /// A catch-all for structural violations such as a corrupt snapshot.
    InvalidState(String),
    /// A task cannot be marked completed while a dependency is not completed.
    DependenciesNotMet(String),
}

impl StateError {
    /// A human-readable rendering of the error, in place of `Display`.
    pub fn message(&self) -> (r: String)
        ensures
            r@ == match self {
                StateError::TaskNotFound(id) => "Task not found: "@ + id@,
                StateError::TaskAlreadyExists(id) => "Task already exists: "@ + id@,
                StateError::CircularDependency(id) => "Circular dependency detected: "@ + id@,
                StateError::InvalidState(msg) => "Invalid state: "@ + msg@,
                StateError::DependenciesNotMet(id) => "Dependencies not met: "@ + id@,
            },
    {
        match self {
            StateError::TaskNotFound(id) => "Task not found: ".to_string().concat(id.as_str()),
            StateError::TaskAlreadyExists(id) => "Task already exists: ".to_string().concat(
                id.as_str(),
            ),
            StateError::CircularDependency(id) => "Circular dependency detected: "
                .to_string()
                .concat(id.as_str()),
            StateError::InvalidState(msg) => "Invalid state: ".to_string().concat(msg.as_str()),
            StateError::DependenciesNotMet(id) => "Dependencies not met: ".to_string().concat(
                id.as_str(),
            ),
        }
    }
}

} // verus!
