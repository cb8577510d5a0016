use build_system::config::SystemConfig;
use build_system::doc::types::{DocType, Documentation, DocumentationStepStatus};
use build_system::doc::FileDocumentationEngine;
use build_system::error::BuildSystemError;
use build_system::inference::extract_json_from_content;
use build_system::project_generator::{
    BuildConfig, BuildScripts, DependencyConfig, ProjectDesign, ProjectGenerationError,
    ProjectGenerator,
};
use build_system::prompt::error::PromptError;
use build_system::prompt::generator::PromptGenerator;
use build_system::prompt::project_generation::{GenerationProjectType, ProjectGenerationConfig};
use build_system::prompt::Prompt;
use build_system::strmap::StrMap;
use build_system::{BuildSystem, ProjectManager};

#[test]
fn test_build() {
    // Add test for build module here
}

#[test]
fn test_doc() {
    // Add test for doc module here
}

#[test]
fn test_prompt_new() {
    let prompt = Prompt::new("system", "user request");
    assert_eq!(prompt.system_context, "system");
    assert_eq!(prompt.user_request, "user request");
}

#[test]
fn test_generate_project_prompt() {
    let config = ProjectGenerationConfig::new(
        "demo-app".to_string(),
        "a demo".to_string(),
        "Rust".to_string(),
        "axum".to_string(),
        GenerationProjectType::WebApplication,
    )
    .unwrap();

    let prompt = PromptGenerator::generate_project_prompt(&config);
    assert_eq!(
        prompt.system_context,
        "You are a helpful AI assistant that generates project configurations."
    );
    assert_eq!(
        prompt.user_request,
        "Generate a project configuration for: demo-app"
    );
}

#[test]
fn test_extract_json_from_content() {
    assert_eq!(
        extract_json_from_content("prefix {\"a\": 1} suffix"),
        Some("{\"a\": 1}")
    );
    assert_eq!(
        extract_json_from_content("{\"outer\": {\"inner\": 2}} trailing"),
        Some("{\"outer\": {\"inner\": 2}}")
    );
    assert_eq!(extract_json_from_content("no braces here"), None);
    assert_eq!(extract_json_from_content("} reversed {"), None);
    assert_eq!(extract_json_from_content("only { opening"), None);
}

#[test]
fn test_project_design_validate() {
    let design = ProjectDesign {
        name: "demo".to_string(),
        description: "a demo".to_string(),
        project_type: "Application".to_string(),
        language: "Rust".to_string(),
        framework: "axum".to_string(),
        technologies: vec![],
        dependencies: DependencyConfig {
            production: StrMap::new(),
            development: StrMap::new(),
        },
        build_config: BuildConfig {
            build_tool: "cargo".to_string(),
            scripts: BuildScripts {
                dev: "cargo run".to_string(),
                build: "cargo build".to_string(),
                test: "cargo test".to_string(),
            },
        },
        directory_structure: vec![("src".to_string(), vec!["main.rs".to_string()])],
        initialization_commands: vec![],
        recommendations: vec![],
    };
    assert!(design.validate().is_ok());

    let mut blank_name = design;
    blank_name.name = "   ".to_string();
    let r = blank_name.validate();
    assert!(matches!(r, Err(ProjectGenerationError::ConfigurationError(_))));
}

#[test]
fn test_project_generator_new() {
    let config = ProjectGenerationConfig::sample_web_project();
    let generator = ProjectGenerator::new(config);
    assert_eq!(generator.config.project_name, "sample-web-app");
}

#[test]
fn test_doc_types() {
    assert_eq!(DocType::ProjectOverview.as_str(), "project_overview");
    assert_eq!(DocType::Markdown.as_str(), "markdown");
    assert_eq!(DocType::default(), DocType::Markdown);
    assert_eq!(
        DocumentationStepStatus::default(),
        DocumentationStepStatus::Pending
    );

    let engine = FileDocumentationEngine::new("docs".to_string());
    assert_eq!(engine.base_path, "docs");
}

#[test]
fn test_system_config_default() {
    let config = SystemConfig::default();
    assert_eq!(config.base_project_dir, "build");
    assert_eq!(config.template_dir, ".reference/templates");
    assert_eq!(config.log_level, "info");
}

#[test]
fn test_error_messages() {
    let e = BuildSystemError::ConfigurationError("bad key".to_string());
    assert_eq!(e.message(), "Configuration error: bad key");

    let p = PromptError::NotFound;
    assert_eq!(p.message(), "Prompt not found");
}

#[test]
fn test_entry_point_handles() {
    let _ = BuildSystem::new();
    let _ = ProjectManager::new();
}

#[test]
fn test_strmap_operations() {
    let mut table = StrMap::new();
    assert!(table.is_empty());
    assert_eq!(table.len(), 0);

    table.insert("alpha", "one");
    table.insert("beta", "two");
    table.insert("alpha", "uno");

    assert_eq!(table.len(), 2);
    assert!(table.contains_key("alpha"));
    assert!(!table.contains_key("gamma"));
    assert_eq!(table.get("alpha").unwrap(), "uno");
    assert_eq!(table.get("beta").unwrap(), "two");
    assert!(table.get("gamma").is_none());
}

#[test]
fn test_documentation_markdown() {
    let doc = Documentation::new(
        "Demo".to_string(),
        "All about the demo.".to_string(),
        DocType::ProjectOverview,
        "docs/demo.md".to_string(),
        "demo".to_string(),
    )
    .with_metadata("technologies", "Rust, SQLite");

    let engine = FileDocumentationEngine::new("docs".to_string());
    let markdown = engine.generate_markdown(&doc);
    assert_eq!(
        markdown,
        "# Demo\n\n## Description\nAll about the demo.\n\n## Technologies\nRust, SQLite\n"
    );

    let plain = Documentation::new(
        "Plain".to_string(),
        "just text".to_string(),
        DocType::Markdown,
        "docs/plain.md".to_string(),
        "demo".to_string(),
    );
    assert_eq!(engine.generate_markdown(&plain), "just text");
    assert_eq!(plain.created_at, plain.updated_at);
}
