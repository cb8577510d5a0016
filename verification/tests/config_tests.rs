use build_system::prompt::project_generation::{
    is_valid_project_name, DirectoryEntry, GenerationDependencyConfig, GenerationProjectType,
    ProjectGenerationConfig,
};

#[test]
fn test_project_generation_config_creation() {
    let config = ProjectGenerationConfig::new(
        "test-project".to_string(),
        "A test project".to_string(),
        "Python".to_string(),
        "Flask".to_string(),
        GenerationProjectType::WebApplication,
    )
    .unwrap();

    assert_eq!(config.project_name, "test-project");
    assert_eq!(config.language, "Python");
    assert_eq!(config.framework, "Flask");
    assert!(config.technologies.is_empty());
    assert!(config.components.is_empty());
    assert!(config.directory_structure.is_empty());
}

#[test]
fn test_invalid_project_name_rejected() {
    let config = ProjectGenerationConfig::new(
        "Has Spaces".to_string(),
        "A test project".to_string(),
        "Python".to_string(),
        "Flask".to_string(),
        GenerationProjectType::WebApplication,
    );
    assert!(config.is_err());

    assert!(is_valid_project_name("my-project9"));
    assert!(!is_valid_project_name(""));
    assert!(!is_valid_project_name("My-Project"));
    assert!(!is_valid_project_name("under_score"));
}

#[test]
fn test_validate_checks_required_fields() {
    let mut config = ProjectGenerationConfig::new(
        "ok-name".to_string(),
        "described".to_string(),
        "Rust".to_string(),
        "actix-web".to_string(),
        GenerationProjectType::Service,
    )
    .unwrap();
    assert!(config.validate().is_ok());

    config.description = String::new();
    assert!(config.validate().is_err());
    config.description = "described".to_string();

    config
        .directory_structure
        .push(("src/nested".to_string(), DirectoryEntry::File("main.rs".to_string())));
    assert!(config.validate().is_err());
    config.directory_structure.clear();
    config
        .directory_structure
        .push(("src".to_string(), DirectoryEntry::File("main.rs".to_string())));
    assert!(config.validate().is_ok());
}

#[test]
fn test_dependency_tables() {
    let mut config = ProjectGenerationConfig::new(
        "dep-demo".to_string(),
        "demo".to_string(),
        "Python".to_string(),
        "Flask".to_string(),
        GenerationProjectType::WebApplication,
    )
    .unwrap();

    config.add_production_dependency("flask", "2.0.0");
    // Re-inserting a key replaces its value rather than duplicating it.
    config.add_production_dependency("flask", "2.0.1");
    config.add_development_dependency("pytest", "6.2.5");

    let prod = config.dependencies.get_dependencies("production").unwrap();
    assert_eq!(prod.len(), 1);
    assert_eq!(prod.get("flask").unwrap(), "2.0.1");

    let dev = config.dependencies.get_dependencies("development").unwrap();
    assert_eq!(dev.get("pytest").unwrap(), "6.2.5");

    assert!(config.dependencies.get_dependencies("staging").is_none());
}

#[test]
fn test_build_scripts() {
    let mut config = ProjectGenerationConfig::new(
        "script-demo".to_string(),
        "demo".to_string(),
        "Python".to_string(),
        "Flask".to_string(),
        GenerationProjectType::WebApplication,
    )
    .unwrap();

    assert!(config.set_build_scripts("run", "", "pytest").is_err());
    assert!(config.build_config.scripts.is_empty());

    config
        .set_build_scripts("flask run", "python setup.py build", "pytest")
        .unwrap();
    assert_eq!(config.build_config.scripts.len(), 3);
    assert_eq!(config.build_config.scripts.get("dev").unwrap(), "flask run");
    assert_eq!(config.build_config.scripts.get("test").unwrap(), "pytest");
}

#[test]
fn test_components_and_technologies() {
    let mut config = ProjectGenerationConfig::new(
        "component-demo".to_string(),
        "demo".to_string(),
        "Python".to_string(),
        "Flask".to_string(),
        GenerationProjectType::WebApplication,
    )
    .unwrap();

    assert!(config.add_component("", "handles auth").is_err());
    assert!(config.add_component("auth", "").is_err());
    assert!(config.add_component("auth service", "handles auth").is_err());
    config.add_component("auth-service", "handles auth").unwrap();
    assert_eq!(config.components.get("auth-service").unwrap(), "handles auth");

    assert!(config.add_technology("").is_err());
    config.add_technology("Flask").unwrap();
    assert_eq!(config.technologies.len(), 1);
    assert_eq!(config.technologies[0], "Flask");
}

#[test]
fn test_sample_web_project_contents() {
    let config = ProjectGenerationConfig::sample_web_project();

    assert_eq!(config.project_name, "sample-web-app");
    assert_eq!(config.language, "Python");
    assert_eq!(config.framework, "Flask");
    assert_eq!(
        config.technologies,
        vec!["Flask".to_string(), "SQLite".to_string(), "JWT".to_string()]
    );
    assert_eq!(
        config.dependencies.production.get("flask").unwrap(),
        "2.0.1"
    );
    assert_eq!(
        config.dependencies.development.get("black").unwrap(),
        "21.9b0"
    );
    assert_eq!(
        config.build_config.scripts.get("build").unwrap(),
        "python setup.py build"
    );
    assert_eq!(config.initialization_commands.len(), 3);
    assert_eq!(config.recommendations.len(), 2);
    assert!(config.validate().is_ok());
}

#[test]
fn test_directory_entry_to_vec() {
    let single = DirectoryEntry::File("main.rs".to_string());
    assert_eq!(single.to_vec(), vec!["main.rs".to_string()]);

    let many = DirectoryEntry::Files(vec!["a.rs".to_string(), "b.rs".to_string()]);
    assert_eq!(many.to_vec(), vec!["a.rs".to_string(), "b.rs".to_string()]);
}

#[test]
fn test_generation_dependency_config_new() {
    let fresh = GenerationDependencyConfig::new();
    assert!(fresh.production.is_empty());
    assert!(fresh.development.is_empty());
}

#[test]
fn test_project_type_as_str() {
    assert_eq!(GenerationProjectType::WebApplication.as_str(), "WebApplication");
    assert_eq!(GenerationProjectType::Tool.as_str(), "Tool");
    assert_eq!(
        GenerationProjectType::CommandLineInterface.as_str(),
        "CommandLineInterface"
    );
}
