//! Task state tracking: records, errors, the dependency graph and the store.

pub mod clock;
pub mod dependency;
pub mod error;
pub mod events;
pub mod laws;
pub mod manager;
pub mod types;

pub use manager::StateManager;
pub use types::{TaskId, TaskMetadata, TaskState, TaskStatus};
