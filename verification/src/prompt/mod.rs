//! Prompt construction and the project-generation configuration model.

pub mod error;
pub mod generator;
pub mod project_generation;
pub mod types;

pub use project_generation::{
    GenerationProjectType as ProjectType, ProjectGenerationConfig as ProjectConfig,
};

use vstd::prelude::*;

verus! {

use vstd::string::StringExecFns;

/// A two-part chat prompt: fixed system framing plus the user's request.
#[derive(Debug)]
pub struct Prompt {
    pub system_context: String,
    pub user_request: String,
}

impl Prompt {
    pub fn new(system_context: &str, user_request: &str) -> (r: Self)
        ensures
            r.system_context@ == system_context@,
            r.user_request@ == user_request@,
    {
        Prompt {
            system_context: String::from_str(system_context),
            user_request: String::from_str(user_request),
        }
    }
}

} // verus!
