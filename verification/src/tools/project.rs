//! Arguments of the project generation tool.

use vstd::prelude::*;

verus! {

/// What the project tool needs to scaffold a project.
#[derive(Debug)]
pub struct ProjectArgs {
    /// Name of the project.
    pub name: String,
    /// Programming language to use.
    pub language: String,
}

} // verus!
