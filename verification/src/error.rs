//! Centralized error taxonomy for the build tooling around the store.

use vstd::prelude::*;

verus! {

use vstd::string::StringExecFns;

/// What went wrong in the surrounding build tooling.
#[derive(Debug)]
pub enum BuildSystemError {
    /// Errors related to project generation.
    ProjectGenerationError(String),
    /// Errors related to configuration.
    ConfigurationError(String),
    /// Errors related to file system operations.
    FileSystemError(String),
    /// Errors related to template processing.
    TemplateError(String),
    /// Catch-all for other unexpected errors.
    UnexpectedError(String),
}

impl BuildSystemError {
    /// A human-readable rendering of the error, in place of `Display`.
    pub fn message(&self) -> (r: String)
        ensures
            r@ == match self {
                BuildSystemError::ProjectGenerationError(m) => "Project generation failed: "@ + m@,
                BuildSystemError::ConfigurationError(m) => "Configuration error: "@ + m@,
                BuildSystemError::FileSystemError(m) => "File system error: "@ + m@,
                BuildSystemError::TemplateError(m) => "Template processing error: "@ + m@,
                BuildSystemError::UnexpectedError(m) => "Unexpected error: "@ + m@,
            },
    {
        match self {
            BuildSystemError::ProjectGenerationError(m) => "Project generation failed: "
                .to_string()
                .concat(m.as_str()),
            BuildSystemError::ConfigurationError(m) => "Configuration error: ".to_string().concat(
                m.as_str(),
            ),
            BuildSystemError::FileSystemError(m) => "File system error: ".to_string().concat(
                m.as_str(),
            ),
            BuildSystemError::TemplateError(m) => "Template processing error: ".to_string().concat(
                m.as_str(),
            ),
            BuildSystemError::UnexpectedError(m) => "Unexpected error: ".to_string().concat(
                m.as_str(),
            ),
        }
    }
}

} // verus!
