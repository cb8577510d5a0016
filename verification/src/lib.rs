//! Task state and dependency tracking for a build orchestrator.
//!
//! The heart of the crate is the `state` module: an in-memory store of task
//! records joined with a directed acyclic dependency graph. The store decides
//! which tasks are ready to run, rejects dependency cycles at insertion time,
//! and supports point-in-time snapshots of the full task map. The remaining
//! modules hold the plain data types that the surrounding tooling (prompt
//! generation, project scaffolding, documentation) exchanges.

pub mod build;
pub mod cli;
pub mod config;
pub mod doc;
pub mod error;
pub mod inference;
pub mod project_generator;
pub mod prompt;
pub mod state;
pub mod strmap;
pub mod tools;
pub mod validation;

pub use build::types as build_types;
pub use error::BuildSystemError;
pub use prompt::generator::PromptGenerator;
pub use state::manager::StateManager;
pub use state::types::{TaskId, TaskMetadata, TaskState, TaskStatus};

use vstd::prelude::*;

verus! {

/// Entry point handle for project generation workflows.
pub struct BuildSystem;

impl BuildSystem {
    pub fn new() -> Self {
        BuildSystem
    }
}

/// Entry point handle for project management workflows.
pub struct ProjectManager;

impl ProjectManager {
    pub fn new() -> Self {
        ProjectManager
    }
}

} // verus!
