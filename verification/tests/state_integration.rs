use build_system::state::error::StateError;
use build_system::state::types::{TaskId, TaskMetadata, TaskState, TaskStatus};
use build_system::state::StateManager;

fn integration_task(id: &str) -> TaskState {
    let mut task = TaskState::new(TaskId::new(id));
    task.metadata = TaskMetadata {
        name: format!("Test Task {}", id),
        description: Some("Test task description".to_string()),
        owner: "test-owner".to_string(),
        priority: 1,
        tags: vec!["test".to_string()],
        estimated_duration: 0,
        dependencies: vec![],
        additional_info: Vec::new(),
    };
    task
}

#[test]
fn mod_test_task_state() {
    let id = "test-task-1";
    let task_id = TaskId::new(id);
    let mut task = TaskState::new(task_id.clone());

    task.metadata = TaskMetadata {
        name: format!("Test Task {}", id),
        description: Some("Test task description".to_string()),
        owner: "test-owner".to_string(),
        dependencies: vec![],
        estimated_duration: 60_000,
        priority: 1,
        tags: vec!["test".to_string()],
        additional_info: Vec::new(),
    };

    assert_eq!(task.id, task_id);
    assert_eq!(task.status, TaskStatus::Pending);
    assert_eq!(task.metadata.name, format!("Test Task {}", id));
    assert_eq!(task.metadata.priority, 1);
    assert_eq!(task.metadata.tags.len(), 1);
    assert_eq!(task.metadata.tags[0], "test");
}

#[test]
fn mod_test_task_metadata() {
    let id = "test-task-1";
    let task_id = TaskId::new(id);
    let mut task = TaskState::new(task_id);

    task.metadata = TaskMetadata {
        name: "Test Task test-1".to_string(),
        description: Some("Test task description".to_string()),
        owner: "test-owner".to_string(),
        dependencies: vec![],
        estimated_duration: 60_000,
        priority: 1,
        tags: vec!["test".to_string()],
        additional_info: Vec::new(),
    };

    assert_eq!(task.metadata.name, "Test Task test-1");
    assert_eq!(task.metadata.priority, 1);
    assert_eq!(task.metadata.tags.len(), 1);
    assert_eq!(task.metadata.tags[0], "test");
}

#[test]
fn test_state_manager_create_task() -> Result<(), StateError> {
    let mut state_manager = StateManager::new();
    let task = integration_task("test-1");

    state_manager.create_task(task.clone())?;
    let retrieved_task = state_manager.get_task(&task.id)?;

    assert_eq!(retrieved_task.id, task.id);
    assert_eq!(retrieved_task.metadata.name, task.metadata.name);
    assert_eq!(retrieved_task.status, TaskStatus::Pending);

    Ok(())
}

#[test]
fn test_state_manager_update_task() -> Result<(), StateError> {
    let mut state_manager = StateManager::new();
    let mut task = integration_task("test-2");

    state_manager.create_task(task.clone())?;

    task.status = TaskStatus::Running;
    state_manager.update_task_status(&task.id, TaskStatus::Running)?;

    let updated_task = state_manager.get_task(&task.id)?;
    assert_eq!(updated_task.status, TaskStatus::Running);

    Ok(())
}

#[test]
fn test_state_manager_dependencies() -> Result<(), StateError> {
    let mut state_manager = StateManager::new();
    let task1 = integration_task("test-3");
    let mut task2 = integration_task("test-4");

    task2.metadata.dependencies = vec![task1.id.clone()];

    state_manager.create_task(task1.clone())?;
    state_manager.create_task(task2.clone())?;

    let retrieved_task2 = state_manager.get_task(&task2.id)?;
    assert!(retrieved_task2.metadata.dependencies.contains(&task1.id));

    Ok(())
}

#[test]
fn test_state_manager_delete_task() -> Result<(), StateError> {
    let mut state_manager = StateManager::new();
    let task = integration_task("test-5");

    state_manager.create_task(task.clone())?;
    state_manager.delete_task(&task.id)?;

    let result = state_manager.get_task(&task.id);
    assert!(result.is_err());

    Ok(())
}

#[test]
fn mod_test_update_task_status() -> Result<(), StateError> {
    let mut manager = StateManager::new();
    let task = integration_task("test-2");

    manager.create_task(task.clone())?;
    manager.update_task_status(&task.id, TaskStatus::Running)?;

    let stored_task = manager.get_task(&task.id)?;
    assert_eq!(stored_task.status, TaskStatus::Running);

    Ok(())
}

#[test]
fn mod_test_delete_task() -> Result<(), StateError> {
    let mut manager = StateManager::new();
    let task = integration_task("test-3");

    manager.create_task(task.clone())?;
    manager.delete_task(&task.id)?;

    let result = manager.get_task(&task.id);
    assert!(matches!(result, Err(StateError::TaskNotFound(_))));

    Ok(())
}

#[test]
fn mod_test_list_tasks() -> Result<(), StateError> {
    let mut manager = StateManager::new();
    let task1 = integration_task("test-4");
    let task2 = integration_task("test-5");

    manager.create_task(task1.clone())?;
    manager.create_task(task2.clone())?;

    let tasks = manager.list_tasks()?;
    assert_eq!(tasks.len(), 2);

    Ok(())
}

#[test]
fn test_state_operations() -> Result<(), StateError> {
    let mut manager = StateManager::new();
    let task = integration_task("test-1");

    manager.create_task(task.clone())?;
    let retrieved = manager.get_task(&task.id)?;
    assert_eq!(retrieved, task);

    manager.update_task_status(&task.id, TaskStatus::Running)?;
    let updated = manager.get_task(&task.id)?;
    assert_eq!(updated.status, TaskStatus::Running);

    let tasks = manager.list_tasks()?;
    assert_eq!(tasks.len(), 1);

    manager.delete_task(&task.id)?;
    assert!(matches!(
        manager.get_task(&task.id),
        Err(StateError::TaskNotFound(_))
    ));

    Ok(())
}
