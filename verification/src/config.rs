//! System-wide configuration for project generation.

use vstd::prelude::*;

verus! {

use vstd::string::StringExecFns;

/// Where projects and templates live, and how chatty the logs are.
#[derive(Debug)]
pub struct SystemConfig {
    /// Base directory for project generation.
    pub base_project_dir: String,
    /// Default template directory.
    pub template_dir: String,
    /// Logging configuration.
    pub log_level: String,
}

impl Default for SystemConfig {
    fn default() -> (r: Self)
        ensures
            r.base_project_dir@ == "build"@,
            r.template_dir@ == ".reference/templates"@,
            r.log_level@ == "info"@,
    {
        SystemConfig {
            base_project_dir: String::from_str("build"),
            template_dir: String::from_str(".reference/templates"),
            log_level: String::from_str("info"),
        }
    }
}

} // verus!
