//! The tool subcommand surface.

use vstd::prelude::*;

verus! {

/// The `tools` subcommand with its own nested command.
#[derive(Debug)]
pub struct ToolsCli {
    pub command: ToolCommands,
}

/// What the tools runner can be asked to do.
#[derive(Debug)]
pub enum ToolCommands {
    /// List all available tools.
    List,
    /// Show detailed information about a specific tool.
    Info { name: String },
    /// Execute the build tool.
    Build { command: String, dir: String },
    /// Generate a new project.
    Project { name: String, language: String, description: Option<String> },
}

} // verus!
