//! Records of a build-output validation run: captured file contents and
//! how they compared against what was expected.

use vstd::prelude::*;

verus! {

/// One captured file: its text, size and whether it is a directory.
#[derive(Debug)]
pub struct FileContent {
    pub content: String,
    pub size_bytes: u64,
    pub is_directory: bool,
}

/// How one file compared against its expectation.
#[derive(Debug)]
pub struct ValidationMatch {
    pub file_path: String,
    pub expected: String,
    pub actual: String,
    pub match_type: MatchType,
}

/// The outcome of comparing one file.
#[derive(Debug, Clone, Copy, PartialEq, Eq, Structural)]
pub enum MatchType {
    Exact,
    Partial,
    Missing,
    Unexpected,
}

} // verus!
