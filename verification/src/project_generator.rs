//! The project design model and its validation; writing the designed tree
//! to disk lives with the binary around the library.

use vstd::prelude::*;

use crate::prompt::ProjectConfig;
use crate::strmap::StrMap;

verus! {

use vstd::string::StrSliceExecFns;

/// Names the result of char::is_whitespace, which depends on the
/// character alone.
pub uninterp spec fn is_whitespace_char(c: char) -> bool;

/// Relies on char::is_whitespace: whether the character has the Unicode
/// whitespace property.
#[verifier::external_body]
fn char_is_whitespace(c: char) -> (r: bool)
    ensures
        r == is_whitespace_char(c),
{
    c.is_whitespace()
}

/// Nothing but whitespace: what `str::trim` would reduce to the empty
/// string.
pub open spec fn blank(s: Seq<char>) -> bool {
    forall|i: int| 0 <= i < s.len() ==> is_whitespace_char(#[trigger] s[i])
}

/// Is the text empty once trimmed, that is, made of whitespace only?
#[verifier::loop_isolation(false)]
fn is_blank(s: &str) -> (r: bool)
    ensures
        r == blank(s@),
{
    let n = s.unicode_len();
    let mut i: usize = 0;
    while i < n
        invariant
            i <= n,
            n == s@.len(),
            forall|j: int| 0 <= j < i ==> is_whitespace_char(#[trigger] s@[j]),
        decreases n - i,
    {
        if !char_is_whitespace(s.get_char(i)) {
            return false;
        }
        i = i + 1;
    }
    true
}

/// A fully resolved design of a project to scaffold.
#[derive(Debug)]
pub struct ProjectDesign {
    pub name: String,
    pub description: String,
    pub project_type: String,
    pub language: String,
    pub framework: String,
    pub technologies: Vec<String>,
    pub dependencies: DependencyConfig,
    pub build_config: BuildConfig,
    pub directory_structure: Vec<(String, Vec<String>)>,
    pub initialization_commands: Vec<String>,
    pub recommendations: Vec<String>,
}

/// Dependency tables of a resolved design.
#[derive(Debug)]
pub struct DependencyConfig {
    pub production: StrMap,
    pub development: StrMap,
}

/// Build tool and scripts of a resolved design.
#[derive(Debug)]
pub struct BuildConfig {
    pub build_tool: String,
    pub scripts: BuildScripts,
}

/// The three canonical build scripts.
#[derive(Debug)]
pub struct BuildScripts {
    pub dev: String,
    pub build: String,
    pub test: String,
}

/// Why generating a project from a design failed.
#[derive(Debug)]
pub enum ProjectGenerationError {
    /// A file system problem, carried as its rendered message.
    IoError(String),
    /// The design itself is unusable.
    ConfigurationError(String),
    /// A component could not be produced.
    ComponentError(String),
    /// The build configuration could not be produced.
    BuildError(String),
}

/// Everything `validate` checks of a design: a name and a language that
/// are not blank, and a nonempty directory structure.
pub open spec fn design_valid(d: &ProjectDesign) -> bool {
    &&& !blank(d.name@)
    &&& !blank(d.language@)
    &&& d.directory_structure@.len() > 0
}

impl ProjectDesign {
    /// Checks the design against `design_valid`, which its result answers
    /// exactly.
    pub fn validate(&self) -> (r: Result<(), ProjectGenerationError>)
        ensures
            r is Ok <==> design_valid(self),
            r matches Err(e) ==> e matches ProjectGenerationError::ConfigurationError(_),
    {
        if is_blank(self.name.as_str()) {
            return Err(
                ProjectGenerationError::ConfigurationError(
                    "Project name cannot be empty".to_string(),
                ),
            );
        }
        if is_blank(self.language.as_str()) {
            return Err(
                ProjectGenerationError::ConfigurationError(
                    "Language must be specified".to_string(),
                ),
            );
        }
        if self.directory_structure.len() == 0 {
            return Err(
                ProjectGenerationError::ConfigurationError(
                    "Directory structure must be defined".to_string(),
                ),
            );
        }
        Ok(())
    }
}

/// Drives scaffolding from one configuration.
#[derive(Debug)]
pub struct ProjectGenerator {
    pub config: ProjectConfig,
}

impl ProjectGenerator {
    pub fn new(config: ProjectConfig) -> (r: Self)
        ensures
            r.config == config,
    {
        ProjectGenerator { config }
    }
}

} // verus!
