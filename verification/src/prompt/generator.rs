//! Builds prompts from project configurations.

use vstd::prelude::*;

use crate::prompt::{ProjectConfig, Prompt};

verus! {

use vstd::string::StringExecFns;

/// Turns configuration records into chat prompts.
pub struct PromptGenerator;

impl PromptGenerator {
    /// The prompt that asks for a configuration of the named project.
    pub fn generate_project_prompt(config: &ProjectConfig) -> (r: Prompt)
        ensures
            r.system_context@
                == "You are a helpful AI assistant that generates project configurations."@,
            r.user_request@ == "Generate a project configuration for: "@ + config.project_name@,
    {
        let system_context = "You are a helpful AI assistant that generates project configurations.";
        let mut user_request = String::from_str("Generate a project configuration for: ");
        user_request.append(config.project_name.as_str());
        Prompt { system_context: String::from_str(system_context), user_request }
    }
}

} // verus!
