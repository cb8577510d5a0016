//! The project generation configuration: what a generated project is
//! called, what it is built with, and the dependency, script and component
//! tables that drive scaffolding.

use vstd::prelude::*;

use crate::strmap::StrMap;

verus! {

use vstd::string::StrSliceExecFns;

/// Kebab-case: nonempty, all lowercase ASCII letters, digits or hyphens.
pub open spec fn valid_project_name(s: Seq<char>) -> bool {
    s.len() > 0 && forall|i: int|
        0 <= i < s.len() ==> ('a' <= #[trigger] s[i] <= 'z' || '0' <= s[i] <= '9' || s[i] == '-')
}

/// Does `name` follow kebab-case (lowercase ASCII, digits, hyphens)?
#[verifier::loop_isolation(false)]
pub fn is_valid_project_name(name: &str) -> (r: bool)
    ensures
        r == valid_project_name(name@),
{
    let n = name.unicode_len();
    if n == 0 {
        return false;
    }
    let mut i: usize = 0;
    while i < n
        invariant
            i <= n,
            n == name@.len(),
            forall|j: int|
                0 <= j < i ==> ('a' <= #[trigger] name@[j] <= 'z' || '0' <= name@[j] <= '9'
                    || name@[j] == '-'),
        decreases n - i,
    {
        let c = name.get_char(i);
        if !(('a' <= c && c <= 'z') || ('0' <= c && c <= '9') || c == '-') {
            return false;
        }
        i = i + 1;
    }
    true
}

/// Names the result of char::is_alphanumeric, which depends on the
/// character alone.
pub uninterp spec fn is_alphanumeric_char(c: char) -> bool;

/// Relies on char::is_alphanumeric: whether the character belongs to a
/// Unicode alphabetic or numeric class.
#[verifier::external_body]
fn char_is_alphanumeric(c: char) -> (r: bool)
    ensures
        r == is_alphanumeric_char(c),
{
    c.is_alphanumeric()
}

/// A component name: alphanumeric characters, underscores and hyphens.
pub open spec fn valid_component_name(s: Seq<char>) -> bool {
    forall|i: int|
        0 <= i < s.len() ==> (is_alphanumeric_char(#[trigger] s[i]) || s[i] == '_' || s[i] == '-')
}

#[verifier::loop_isolation(false)]
fn is_valid_component_name(name: &str) -> (r: bool)
    ensures
        r == valid_component_name(name@),
{
    let n = name.unicode_len();
    let mut i: usize = 0;
    while i < n
        invariant
            i <= n,
            n == name@.len(),
            forall|j: int|
                0 <= j < i ==> (is_alphanumeric_char(#[trigger] name@[j]) || name@[j] == '_'
                    || name@[j] == '-'),
        decreases n - i,
    {
        let c = name.get_char(i);
        if !(char_is_alphanumeric(c) || c == '_' || c == '-') {
            return false;
        }
        i = i + 1;
    }
    true
}

/// Does the text contain the character?
#[verifier::loop_isolation(false)]
fn str_contains_char(s: &str, c: char) -> (r: bool)
    ensures
        r == s@.contains(c),
{
    let n = s.unicode_len();
    let mut i: usize = 0;
    while i < n
        invariant
            i <= n,
            n == s@.len(),
            forall|j: int| 0 <= j < i ==> #[trigger] s@[j] != c,
        decreases n - i,
    {
        if s.get_char(i) == c {
            proof {
                assert(s@[i as int] == c);
            }
            return true;
        }
        i = i + 1;
    }
    false
}

/// The kind of software project being generated.
#[derive(Debug, Clone, Copy, PartialEq, Eq, Structural)]
pub enum GenerationProjectType {
    WebApplication,
    CommandLineInterface,
    Library,
    MicroService,
    DesktopApplication,
    MobileApplication,
    Application,
    Service,
    Tool,
}

impl GenerationProjectType {
    /// The kind's name, in place of `Display`.
    pub fn as_str(&self) -> (r: &'static str)
        ensures
            r@ == match self {
                GenerationProjectType::WebApplication => "WebApplication"@,
                GenerationProjectType::CommandLineInterface => "CommandLineInterface"@,
                GenerationProjectType::Library => "Library"@,
                GenerationProjectType::MicroService => "MicroService"@,
                GenerationProjectType::DesktopApplication => "DesktopApplication"@,
                GenerationProjectType::MobileApplication => "MobileApplication"@,
                GenerationProjectType::Application => "Application"@,
                GenerationProjectType::Service => "Service"@,
                GenerationProjectType::Tool => "Tool"@,
            },
    {
        match self {
            GenerationProjectType::WebApplication => "WebApplication",
            GenerationProjectType::CommandLineInterface => "CommandLineInterface",
            GenerationProjectType::Library => "Library",
            GenerationProjectType::MicroService => "MicroService",
            GenerationProjectType::DesktopApplication => "DesktopApplication",
            GenerationProjectType::MobileApplication => "MobileApplication",
            GenerationProjectType::Application => "Application",
            GenerationProjectType::Service => "Service",
            GenerationProjectType::Tool => "Tool",
        }
    }
}

/// Dependency tables for the two installation environments.
#[derive(Debug)]
pub struct GenerationDependencyConfig {
    pub production: StrMap,
    pub development: StrMap,
}

impl GenerationDependencyConfig {
    pub open spec fn wf(&self) -> bool {
        self.production.wf() && self.development.wf()
    }

    pub fn new() -> (r: Self)
        ensures
            r.wf(),
            r.production@ == Map::<Seq<char>, Seq<char>>::empty(),
            r.development@ == Map::<Seq<char>, Seq<char>>::empty(),
    {
        GenerationDependencyConfig { production: StrMap::new(), development: StrMap::new() }
    }

    /// The table for the named environment: `production` or `development`.
    pub fn get_dependencies(&self, env: &str) -> (r: Option<&StrMap>)
        ensures
            r == if env@ == "production"@ {
                Some(&self.production)
            } else if env@ == "development"@ {
                Some(&self.development)
            } else {
                Option::<&StrMap>::None
            },
    {
        let e = env.to_owned();
        if e == "production".to_owned() {
            Some(&self.production)
        } else if e == "development".to_owned() {
            Some(&self.development)
        } else {
            None
        }
    }
}

impl Default for GenerationDependencyConfig {
    fn default() -> (r: Self)
        ensures
            r.wf(),
            r.production@ == Map::<Seq<char>, Seq<char>>::empty(),
            r.development@ == Map::<Seq<char>, Seq<char>>::empty(),
    {
        GenerationDependencyConfig::new()
    }
}

/// Which tool builds the project, and the named build scripts.
#[derive(Debug)]
pub struct GenerationBuildConfig {
    pub build_tool: String,
    pub scripts: StrMap,
}

impl GenerationBuildConfig {
    pub open spec fn wf(&self) -> bool {
        self.scripts.wf()
    }
}

impl Default for GenerationBuildConfig {
    fn default() -> (r: Self)
        ensures
            r.wf(),
            r.build_tool@ == Seq::<char>::empty(),
            r.scripts@ == Map::<Seq<char>, Seq<char>>::empty(),
    {
        GenerationBuildConfig { build_tool: String::new(), scripts: StrMap::new() }
    }
}

/// One slot of the directory layout: a single file or a list of files.
#[derive(Debug)]
pub enum DirectoryEntry {
    Files(Vec<String>),
    File(String),
}

impl DirectoryEntry {
    /// The entry's files as a list, a singleton for a single file.
    pub fn to_vec(&self) -> (r: Vec<String>)
        ensures
            r.deep_view() == match self {
                DirectoryEntry::Files(files) => files.deep_view(),
                DirectoryEntry::File(file) => seq![file@],
            },
    {
        match self {
            DirectoryEntry::Files(files) => clone_string_list(files),
            DirectoryEntry::File(file) => {
                let mut r: Vec<String> = Vec::new();
                r.push(file.clone());
                proof {
                    assert(r.deep_view() =~= seq![file@]);
                }
                r
            },
        }
    }
}

fn clone_string_list(v: &Vec<String>) -> (r: Vec<String>)
    ensures
        r.deep_view() == v.deep_view(),
{
    let mut r: Vec<String> = Vec::new();
    let mut i: usize = 0;
    while i < v.len()
        invariant
            i <= v.len(),
            r@.len() == i,
            forall|j: int| 0 <= j < i ==> r.deep_view()[j] == v.deep_view()[j],
        decreases v.len() - i,
    {
        r.push(v[i].clone());
        proof {
            assert(r.deep_view()[i as int] == v.deep_view()[i as int]);
        }
        i = i + 1;
    }
    proof {
        assert(r.deep_view() =~= v.deep_view());
    }
    r
}

fn push_string(v: &mut Vec<String>, s: String)
    ensures
        final(v).deep_view() == old(v).deep_view().push(s@),
{
    let ghost gs = s@;
    v.push(s);
    proof {
        assert(v.deep_view() =~= old(v).deep_view().push(gs));
    }
}

/// A complete project generation configuration.
#[derive(Debug)]
pub struct ProjectGenerationConfig {
    /// The name of the project, in kebab-case.
    pub project_name: String,
    /// Project description.
    pub description: String,
    /// Primary programming language.
    pub language: String,
    /// Web framework or library.
    pub framework: String,
    /// Type of project.
    pub project_type: GenerationProjectType,
    /// Technologies used.
    pub technologies: Vec<String>,
    /// Components and their responsibilities.
    pub components: StrMap,
    /// Directory layout: directory name to its files.
    pub directory_structure: Vec<(String, DirectoryEntry)>,
    /// Production and development dependencies.
    pub dependencies: GenerationDependencyConfig,
    /// Build tool and scripts.
    pub build_config: GenerationBuildConfig,
    /// Commands that initialize the generated project.
    pub initialization_commands: Vec<String>,
    /// Free-form recommendations.
    pub recommendations: Vec<String>,
}

/// Everything `validate` checks: required fields are present, the name is
/// kebab-case, and directory names are nonempty without path separators.
pub open spec fn config_valid(c: &ProjectGenerationConfig) -> bool {
    &&& c.project_name@.len() > 0
    &&& valid_project_name(c.project_name@)
    &&& c.description@.len() > 0
    &&& c.language@.len() > 0
    &&& c.framework@.len() > 0
    &&& forall|i: int|
        0 <= i < c.directory_structure@.len() ==> {
            let d = (#[trigger] c.directory_structure@[i]).0@;
            d.len() > 0 && !d.contains('/') && !d.contains('\\')
        }
}

impl ProjectGenerationConfig {
    /// The key/value tables all keep their keys unique.
    pub open spec fn wf(&self) -> bool {
        self.components.wf() && self.dependencies.wf() && self.build_config.wf()
    }

    /// A fresh configuration with empty tables. The project name must be
    /// kebab-case; anything else is refused.
    pub fn new(
        project_name: String,
        description: String,
        language: String,
        framework: String,
        project_type: GenerationProjectType,
    ) -> (r: Result<Self, String>)
        ensures
            match r {
                Ok(c) => {
                    &&& valid_project_name(project_name@)
                    &&& c.wf()
                    &&& c.project_name@ == project_name@
                    &&& c.description@ == description@
                    &&& c.language@ == language@
                    &&& c.framework@ == framework@
                    &&& c.project_type == project_type
                    &&& c.technologies@.len() == 0
                    &&& c.components@ == Map::<Seq<char>, Seq<char>>::empty()
                    &&& c.directory_structure@.len() == 0
                    &&& c.dependencies.production@ == Map::<Seq<char>, Seq<char>>::empty()
                    &&& c.dependencies.development@ == Map::<Seq<char>, Seq<char>>::empty()
                    &&& c.build_config.build_tool@ == Seq::<char>::empty()
                    &&& c.build_config.scripts@ == Map::<Seq<char>, Seq<char>>::empty()
                    &&& c.initialization_commands@.len() == 0
                    &&& c.recommendations@.len() == 0
                },
                Err(_) => !valid_project_name(project_name@),
            },
    {
        if !is_valid_project_name(project_name.as_str()) {
            return Err("Invalid project name. Use kebab-case (e.g., my-project)".to_string());
        }
        Ok(
            ProjectGenerationConfig {
                project_name,
                description,
                language,
                framework,
                project_type,
                technologies: Vec::new(),
                components: StrMap::new(),
                directory_structure: Vec::new(),
                dependencies: GenerationDependencyConfig::new(),
                build_config: GenerationBuildConfig::default(),
                initialization_commands: Vec::new(),
                recommendations: Vec::new(),
            },
        )
    }

    /// Checks the configuration against `config_valid`, which its result
    /// answers exactly.
    #[verifier::loop_isolation(false)]
    pub fn validate(&self) -> (r: Result<(), String>)
        ensures
            r is Ok <==> config_valid(self),
    {
        if self.project_name.as_str().is_empty() {
            return Err("Project name is required".to_string());
        }
        if !is_valid_project_name(self.project_name.as_str()) {
            return Err("Invalid project name format".to_string());
        }
        if self.description.as_str().is_empty() {
            return Err("Project description is required".to_string());
        }
        if self.language.as_str().is_empty() {
            return Err("Programming language is required".to_string());
        }
        if self.framework.as_str().is_empty() {
            return Err("Framework is required".to_string());
        }
        let mut i: usize = 0;
        while i < self.directory_structure.len()
            invariant
                i <= self.directory_structure.len(),
                forall|j: int|
                    0 <= j < i ==> {
                        let d = (#[trigger] self.directory_structure@[j]).0@;
                        d.len() > 0 && !d.contains('/') && !d.contains('\\')
                    },
            decreases self.directory_structure.len() - i,
        {
            let dir = &self.directory_structure[i].0;
            if dir.as_str().is_empty() {
                return Err("Directory name cannot be empty".to_string());
            }
            if str_contains_char(dir.as_str(), '/') || str_contains_char(dir.as_str(), '\\') {
                return Err("Directory name cannot contain path separators".to_string());
            }
            i = i + 1;
        }
        Ok(())
    }

    /// Records a production dependency at the given version.
    pub fn add_production_dependency(&mut self, name: &str, version: &str)
        requires
            old(self).wf(),
        ensures
            final(self).wf(),
            final(self).dependencies.production@ == old(self).dependencies.production@.insert(
                name@,
                version@,
            ),
            final(self).dependencies.development == old(self).dependencies.development,
            unchanged_but_dependencies(old(self), final(self)),
    {
        self.dependencies.production.insert(name, version);
    }

    /// Records a development dependency at the given version.
    pub fn add_development_dependency(&mut self, name: &str, version: &str)
        requires
            old(self).wf(),
        ensures
            final(self).wf(),
            final(self).dependencies.development@ == old(self).dependencies.development@.insert(
                name@,
                version@,
            ),
            final(self).dependencies.production == old(self).dependencies.production,
            unchanged_but_dependencies(old(self), final(self)),
    {
        self.dependencies.development.insert(name, version);
    }

    /// Stores the three canonical build scripts, refusing empty ones.
    pub fn set_build_scripts(&mut self, dev: &str, build: &str, test: &str) -> (r: Result<
        (),
        String,
    >)
        requires
            old(self).wf(),
        ensures
            final(self).wf(),
            match r {
                Ok(()) => {
                    &&& dev@.len() > 0 && build@.len() > 0 && test@.len() > 0
                    &&& final(self).build_config.scripts@ == old(
                        self,
                    ).build_config.scripts@.insert("dev"@, dev@).insert("build"@, build@).insert(
                        "test"@,
                        test@,
                    )
                    &&& final(self).build_config.build_tool == old(self).build_config.build_tool
                    &&& unchanged_but_build_config(old(self), final(self))
                },
                Err(_) => {
                    &&& !(dev@.len() > 0 && build@.len() > 0 && test@.len() > 0)
                    &&& *final(self) == *old(self)
                },
            },
    {
        if dev.is_empty() || build.is_empty() || test.is_empty() {
            return Err("Build scripts cannot be empty".to_string());
        }
        self.build_config.scripts.insert("dev", dev);
        self.build_config.scripts.insert("build", build);
        self.build_config.scripts.insert("test", test);
        Ok(())
    }

    /// Appends a project initialization command.
    pub fn add_initialization_command(&mut self, command: &str)
        ensures
            final(self).initialization_commands.deep_view() == old(
                self,
            ).initialization_commands.deep_view().push(command@),
            unchanged_but_initialization_commands(old(self), final(self)),
    {
        push_string(&mut self.initialization_commands, command.to_owned());
    }

    /// Appends a recommendation.
    pub fn add_recommendation(&mut self, recommendation: &str)
        ensures
            final(self).recommendations.deep_view() == old(
                self,
            ).recommendations.deep_view().push(recommendation@),
            unchanged_but_recommendations(old(self), final(self)),
    {
        push_string(&mut self.recommendations, recommendation.to_owned());
    }

    /// Records a component and its responsibility. The name must be
    /// nonempty, built of alphanumeric characters, underscores and
    /// hyphens, and the responsibility nonempty.
    pub fn add_component(&mut self, name: &str, responsibility: &str) -> (r: Result<(), String>)
        requires
            old(self).wf(),
        ensures
            final(self).wf(),
            match r {
                Ok(()) => {
                    &&& name@.len() > 0
                    &&& responsibility@.len() > 0
                    &&& valid_component_name(name@)
                    &&& final(self).components@ == old(self).components@.insert(
                        name@,
                        responsibility@,
                    )
                    &&& unchanged_but_components(old(self), final(self))
                },
                Err(_) => {
                    &&& !(name@.len() > 0 && responsibility@.len() > 0 && valid_component_name(
                        name@,
                    ))
                    &&& *final(self) == *old(self)
                },
            },
    {
        if name.is_empty() {
            return Err("Component name cannot be empty".to_string());
        }
        if responsibility.is_empty() {
            return Err("Component responsibility cannot be empty".to_string());
        }
        if !is_valid_component_name(name) {
            return Err(
                "Component name can only contain alphanumeric characters, underscores, and hyphens".to_string(),
            );
        }
        self.components.insert(name, responsibility);
        Ok(())
    }

    /// Appends a technology, refusing an empty name.
    pub fn add_technology(&mut self, technology: &str) -> (r: Result<(), String>)
        ensures
            match r {
                Ok(()) => {
                    &&& technology@.len() > 0
                    &&& final(self).technologies.deep_view() == old(
                        self,
                    ).technologies.deep_view().push(technology@)
                    &&& unchanged_but_technologies(old(self), final(self))
                },
                Err(_) => {
                    &&& technology@.len() == 0
                    &&& *final(self) == *old(self)
                },
            },
    {
        if technology.is_empty() {
            return Err("Technology name cannot be empty".to_string());
        }
        push_string(&mut self.technologies, technology.to_owned());
        Ok(())
    }
}

impl ProjectGenerationConfig {
    /// A worked example configuration: a small Python/Flask web project
    /// with its technologies, dependencies, scripts, commands and
    /// recommendations filled in.
    pub fn sample_web_project() -> (r: Self)
        ensures
            r.wf(),
            r.project_name@ == "sample-web-app"@,
            r.description@ == "A sample web application"@,
            r.language@ == "Python"@,
            r.framework@ == "Flask"@,
            r.project_type == GenerationProjectType::WebApplication,
            r.technologies.deep_view() == seq!["Flask"@, "SQLite"@, "JWT"@],
            r.components@ == Map::<Seq<char>, Seq<char>>::empty(),
            r.directory_structure@.len() == 0,
            r.dependencies.production@ == Map::<Seq<char>, Seq<char>>::empty().insert(
                "flask"@,
                "2.0.1"@,
            ).insert("sqlalchemy"@, "1.4.23"@),
            r.dependencies.development@ == Map::<Seq<char>, Seq<char>>::empty().insert(
                "pytest"@,
                "6.2.5"@,
            ).insert("black"@, "21.9b0"@),
            r.build_config.build_tool@ == Seq::<char>::empty(),
            r.build_config.scripts@ == Map::<Seq<char>, Seq<char>>::empty().insert(
                "dev"@,
                "flask run"@,
            ).insert("build"@, "python setup.py build"@).insert("test"@, "pytest"@),
            r.initialization_commands.deep_view() == seq![
                "python -m venv venv"@,
                "source venv/bin/activate"@,
                "pip install -r requirements.txt"@,
            ],
            r.recommendations.deep_view() == seq![
                "Use environment variables for configuration"@,
                "Implement comprehensive error handling"@,
            ],
    {
        proof {
            reveal_strlit("sample-web-app");
            reveal_strlit("Flask");
            reveal_strlit("SQLite");
            reveal_strlit("JWT");
            reveal_strlit("flask run");
            reveal_strlit("python setup.py build");
            reveal_strlit("pytest");
            assert(valid_project_name("sample-web-app"@));
        }
        let mut config = match Self::new(
            "sample-web-app".to_string(),
            "A sample web application".to_string(),
            "Python".to_string(),
            "Flask".to_string(),
            GenerationProjectType::WebApplication,
        ) {
            Ok(c) => c,
            Err(_) => vstd::pervasive::unreached(),
        };
        match config.add_technology("Flask") {
            Ok(()) => {},
            Err(_) => {
                proof {
                    assert(false);
                }
            },
        }
        match config.add_technology("SQLite") {
            Ok(()) => {},
            Err(_) => {
                proof {
                    assert(false);
                }
            },
        }
        match config.add_technology("JWT") {
            Ok(()) => {},
            Err(_) => {
                proof {
                    assert(false);
                }
            },
        }
        proof {
            assert(config.technologies.deep_view() =~= seq!["Flask"@, "SQLite"@, "JWT"@]);
        }
        config.add_production_dependency("flask", "2.0.1");
        config.add_production_dependency("sqlalchemy", "1.4.23");
        config.add_development_dependency("pytest", "6.2.5");
        config.add_development_dependency("black", "21.9b0");
        match config.set_build_scripts("flask run", "python setup.py build", "pytest") {
            Ok(()) => {},
            Err(_) => {
                proof {
                    assert(false);
                }
            },
        }
        config.add_initialization_command("python -m venv venv");
        config.add_initialization_command("source venv/bin/activate");
        config.add_initialization_command("pip install -r requirements.txt");
        config.add_recommendation("Use environment variables for configuration");
        config.add_recommendation("Implement comprehensive error handling");
        proof {
            assert(config.initialization_commands.deep_view() =~= seq![
                "python -m venv venv"@,
                "source venv/bin/activate"@,
                "pip install -r requirements.txt"@,
            ]);
            assert(config.recommendations.deep_view() =~= seq![
                "Use environment variables for configuration"@,
                "Implement comprehensive error handling"@,
            ]);
        }
        config
    }
}

/// All fields other than `dependencies` kept their values.
pub open spec fn unchanged_but_dependencies(
    a: &ProjectGenerationConfig,
    b: &ProjectGenerationConfig,
) -> bool {
    &&& b.project_name == a.project_name
    &&& b.description == a.description
    &&& b.language == a.language
    &&& b.framework == a.framework
    &&& b.project_type == a.project_type
    &&& b.technologies == a.technologies
    &&& b.components == a.components
    &&& b.directory_structure == a.directory_structure
    &&& b.build_config == a.build_config
    &&& b.initialization_commands == a.initialization_commands
    &&& b.recommendations == a.recommendations
}

/// All fields other than `build_config` kept their values.
pub open spec fn unchanged_but_build_config(
    a: &ProjectGenerationConfig,
    b: &ProjectGenerationConfig,
) -> bool {
    &&& b.project_name == a.project_name
    &&& b.description == a.description
    &&& b.language == a.language
    &&& b.framework == a.framework
    &&& b.project_type == a.project_type
    &&& b.technologies == a.technologies
    &&& b.components == a.components
    &&& b.directory_structure == a.directory_structure
    &&& b.dependencies == a.dependencies
    &&& b.initialization_commands == a.initialization_commands
    &&& b.recommendations == a.recommendations
}

/// All fields other than `initialization_commands` kept their values.
pub open spec fn unchanged_but_initialization_commands(
    a: &ProjectGenerationConfig,
    b: &ProjectGenerationConfig,
) -> bool {
    &&& b.project_name == a.project_name
    &&& b.description == a.description
    &&& b.language == a.language
    &&& b.framework == a.framework
    &&& b.project_type == a.project_type
    &&& b.technologies == a.technologies
    &&& b.components == a.components
    &&& b.directory_structure == a.directory_structure
    &&& b.dependencies == a.dependencies
    &&& b.build_config == a.build_config
    &&& b.recommendations == a.recommendations
}

/// All fields other than `recommendations` kept their values.
pub open spec fn unchanged_but_recommendations(
    a: &ProjectGenerationConfig,
    b: &ProjectGenerationConfig,
) -> bool {
    &&& b.project_name == a.project_name
    &&& b.description == a.description
    &&& b.language == a.language
    &&& b.framework == a.framework
    &&& b.project_type == a.project_type
    &&& b.technologies == a.technologies
    &&& b.components == a.components
    &&& b.directory_structure == a.directory_structure
    &&& b.dependencies == a.dependencies
    &&& b.build_config == a.build_config
    &&& b.initialization_commands == a.initialization_commands
}

/// All fields other than `components` kept their values.
pub open spec fn unchanged_but_components(
    a: &ProjectGenerationConfig,
    b: &ProjectGenerationConfig,
) -> bool {
    &&& b.project_name == a.project_name
    &&& b.description == a.description
    &&& b.language == a.language
    &&& b.framework == a.framework
    &&& b.project_type == a.project_type
    &&& b.technologies == a.technologies
    &&& b.directory_structure == a.directory_structure
    &&& b.dependencies == a.dependencies
    &&& b.build_config == a.build_config
    &&& b.initialization_commands == a.initialization_commands
    &&& b.recommendations == a.recommendations
}

/// All fields other than `technologies` kept their values.
pub open spec fn unchanged_but_technologies(
    a: &ProjectGenerationConfig,
    b: &ProjectGenerationConfig,
) -> bool {
    &&& b.project_name == a.project_name
    &&& b.description == a.description
    &&& b.language == a.language
    &&& b.framework == a.framework
    &&& b.project_type == a.project_type
    &&& b.components == a.components
    &&& b.directory_structure == a.directory_structure
    &&& b.dependencies == a.dependencies
    &&& b.build_config == a.build_config
    &&& b.initialization_commands == a.initialization_commands
    &&& b.recommendations == a.recommendations
}

} // verus!
