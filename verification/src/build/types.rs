//! Plain records that build tasks exchange with their executor.

use vstd::prelude::*;

verus! {

/// A file to write while applying a build task.
#[derive(Debug)]
pub struct FileChange {
    pub path: String,
    pub content: String,
    pub is_executable: bool,
}

/// Descriptive attributes of a build task; durations are in milliseconds
/// and `additional_info` holds free-form key/value pairs.
#[derive(Debug)]
pub struct TaskMetadata {
    pub name: String,
    pub description: Option<String>,
    pub owner: String,
    pub priority: String,
    pub tags: Vec<String>,
    pub estimated_duration: u64,
    pub dependencies: Vec<String>,
    pub additional_info: Vec<(String, String)>,
}

/// Concrete resources granted to a build task.
#[derive(Debug, Clone, Copy, PartialEq, Eq, Structural)]
pub struct ResourceAllocation {
    pub cpu_cores: u32,
    pub memory_mb: u64,
    pub disk_gb: u64,
}

} // verus!
