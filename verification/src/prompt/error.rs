//! Failures of prompt handling.

use vstd::prelude::*;

verus! {

use vstd::string::StringExecFns;

/// Why a prompt operation failed.
#[derive(Debug)]
pub enum PromptError {
    /// The prompt's content did not pass validation.
    ValidationError(String),
    /// The underlying storage reported a problem.
    StorageError(String),
    /// No prompt is stored under the requested key.
    NotFound,
}

impl PromptError {
    /// A human-readable rendering of the error, in place of `Display`.
    pub fn message(&self) -> (r: String)
        ensures
            r@ == match self {
                PromptError::ValidationError(m) => "Prompt validation failed: "@ + m@,
                PromptError::StorageError(m) => "Prompt storage error: "@ + m@,
                PromptError::NotFound => "Prompt not found"@,
            },
    {
        match self {
            PromptError::ValidationError(m) => "Prompt validation failed: ".to_string().concat(
                m.as_str(),
            ),
            PromptError::StorageError(m) => "Prompt storage error: ".to_string().concat(m.as_str()),
            PromptError::NotFound => "Prompt not found".to_string(),
        }
    }
}

} // verus!
