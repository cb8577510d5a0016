use build_system::build_types::{FileChange, ResourceAllocation, TaskMetadata as BuildTaskMetadata};
use build_system::cli::{Cli, Commands, ToolCommands, ToolsCli};
use build_system::state::error::StateError;
use build_system::state::events::StateEvent;
use build_system::state::types::{TaskId, TaskMetadata, TaskState, TaskStatus};
use build_system::state::StateManager;
use build_system::tools::{ParameterDefinition, ProjectArgs, ToolCall, ToolFunction, ToolParameters, ToolResult};
use build_system::validation::{FileContent, MatchType, ValidationMatch};

#[test]
fn test_task_defaults() {
    let metadata = TaskMetadata::default();
    assert_eq!(metadata.name, "");
    assert_eq!(metadata.description, None);
    assert_eq!(metadata.dependencies.len(), 0);
    assert_eq!(metadata.estimated_duration, 0);
    assert_eq!(metadata.priority, 0);

    let task = TaskState::default();
    assert_eq!(task.id.0, "default");
    assert_eq!(task.status, TaskStatus::Pending);
    assert_eq!(task.created_at, task.updated_at);
}

#[test]
fn test_task_id_round_trip() {
    let id = TaskId::new("some-task");
    assert_eq!(id.as_string(), "some-task");
    assert_eq!(id.clone(), id);
    assert_ne!(id, TaskId::new("other-task"));
}

#[test]
fn test_add_dependency_screens_cycles() {
    let mut manager = StateManager::new();
    let mut a = TaskState::new(TaskId::new("a"));
    a.metadata.name = "a".to_string();
    manager.create_task(a).unwrap();
    let mut b = TaskState::new(TaskId::new("b"));
    b.metadata.name = "b".to_string();
    manager.create_task(b).unwrap();

    manager
        .add_dependency(TaskId::new("a"), vec![TaskId::new("b")])
        .unwrap();
    let reverse = manager.add_dependency(TaskId::new("b"), vec![TaskId::new("a")]);
    assert!(matches!(reverse, Err(StateError::CircularDependency(_))));

    let deps = manager.get_task_dependencies(&TaskId::new("a")).unwrap();
    assert_eq!(deps.len(), 1);
    assert!(deps.contains(&TaskId::new("b")));
}

#[test]
fn test_state_error_messages() {
    assert_eq!(
        StateError::TaskNotFound("x".to_string()).message(),
        "Task not found: x"
    );
    assert_eq!(
        StateError::TaskAlreadyExists("x".to_string()).message(),
        "Task already exists: x"
    );
    assert_eq!(
        StateError::CircularDependency("x".to_string()).message(),
        "Circular dependency detected: x"
    );
    assert_eq!(
        StateError::DependenciesNotMet("x".to_string()).message(),
        "Dependencies not met: x"
    );
}

#[test]
fn test_state_events_carry_their_payloads() {
    let created = StateEvent::TaskCreated(TaskId::new("a"));
    assert!(matches!(created, StateEvent::TaskCreated(id) if id.0 == "a"));

    let updated = StateEvent::TaskUpdated(TaskId::new("a"), TaskStatus::Running);
    assert!(matches!(
        updated,
        StateEvent::TaskUpdated(_, TaskStatus::Running)
    ));

    let resolved = StateEvent::DependencyResolved(TaskId::new("a"), vec![TaskId::new("b")]);
    assert!(matches!(resolved, StateEvent::DependencyResolved(_, deps) if deps.len() == 1));

    let snapshot = StateEvent::SnapshotCreated(3);
    assert!(matches!(snapshot, StateEvent::SnapshotCreated(3)));
}

#[test]
fn test_tool_records() {
    let call = ToolCall {
        name: "project".to_string(),
        arguments: "{}".to_string(),
    };
    let result = ToolResult {
        tool_name: call.name.clone(),
        output: "done".to_string(),
    };
    assert_eq!(result.tool_name, "project");

    let parameters = ToolParameters {
        param_type: "object".to_string(),
        properties: vec![(
            "name".to_string(),
            ParameterDefinition {
                param_type: "string".to_string(),
                description: Some("Project name".to_string()),
                enum_values: None,
            },
        )],
        required: vec!["name".to_string()],
    };
    assert_eq!(parameters.properties.len(), 1);

    let function = ToolFunction {
        name: "generate".to_string(),
        arguments: call.arguments.clone(),
    };
    assert_eq!(function.arguments, "{}");

    let args = ProjectArgs {
        name: "demo".to_string(),
        language: "rust".to_string(),
    };
    assert_eq!(args.language, "rust");
}

#[test]
fn test_cli_model() {
    let cli = Cli {
        command: Commands::Tools(ToolsCli {
            command: ToolCommands::Project {
                name: "demo".to_string(),
                language: "rust".to_string(),
                description: None,
            },
        }),
    };
    let Commands::Tools(tools) = cli.command;
    assert!(matches!(
        tools.command,
        ToolCommands::Project { ref name, .. } if name == "demo"
    ));
}

#[test]
fn test_build_records() {
    let change = FileChange {
        path: "src/main.rs".to_string(),
        content: "fn main() {}".to_string(),
        is_executable: false,
    };
    assert!(!change.is_executable);

    let metadata = BuildTaskMetadata {
        name: "compile".to_string(),
        description: None,
        owner: "ci".to_string(),
        priority: "high".to_string(),
        tags: vec![],
        estimated_duration: 1_000,
        dependencies: vec![],
        additional_info: vec![],
    };
    assert_eq!(metadata.priority, "high");

    let allocation = ResourceAllocation {
        cpu_cores: 2,
        memory_mb: 512,
        disk_gb: 1,
    };
    assert_eq!(allocation, ResourceAllocation { cpu_cores: 2, memory_mb: 512, disk_gb: 1 });
}

#[test]
fn test_validation_records() {
    let capture = FileContent {
        content: "fn main() {}".to_string(),
        size_bytes: 12,
        is_directory: false,
    };
    assert_eq!(capture.size_bytes, 12);

    let comparison = ValidationMatch {
        file_path: "src/main.rs".to_string(),
        expected: "fn main() {}".to_string(),
        actual: "fn main() {}".to_string(),
        match_type: MatchType::Exact,
    };
    assert_eq!(comparison.match_type, MatchType::Exact);
    assert_ne!(MatchType::Missing, MatchType::Unexpected);
}
