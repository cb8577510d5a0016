//! The shape of the command line surface; parsing and execution live with
//! the binary around the library.

pub mod tools;

pub use tools::{ToolCommands, ToolsCli};

use vstd::prelude::*;

verus! {

/// The parsed top-level command line.
#[derive(Debug)]
pub struct Cli {
    pub command: Commands,
}

/// The top-level subcommands.
#[derive(Debug)]
pub enum Commands {
    /// Execute build system tools.
    Tools(ToolsCli),
}

} // verus!
