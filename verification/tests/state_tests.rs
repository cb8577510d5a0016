use build_system::state::error::StateError;
use build_system::state::types::{TaskId, TaskMetadata, TaskState, TaskStatus};
use build_system::state::StateManager;

fn make_task(id: &str, name: &str) -> TaskState {
    let mut task = TaskState::new(TaskId::new(id));
    task.metadata.name = name.to_string();
    task
}

#[test]
fn tests_test_task_state() {
    let id = "test-task-1";
    let task_id = TaskId::new(id);
    let task = TaskState::new(task_id.clone());

    assert_eq!(task_id.as_string(), id);
    assert_eq!(TaskId::new(id), task_id);
    assert_eq!(task.status, TaskStatus::Pending);
}

#[test]
fn tests_test_task_metadata() {
    let id = "test-task-1";
    let task_id = TaskId::new(id);
    let mut task = TaskState::new(task_id);

    task.metadata = TaskMetadata {
        dependencies: vec![],
        estimated_duration: 60_000,
        priority: 1,
        tags: vec!["test".to_string()],
        name: "Test Task".to_string(),
        description: Some("Test Description".to_string()),
        owner: "test-owner".to_string(),
        additional_info: Vec::new(),
    };

    assert_eq!(task.metadata.priority, 1);
    assert_eq!(task.metadata.tags.len(), 1);
    assert_eq!(task.metadata.tags[0], "test");
}

#[test]
fn test_create_task() -> Result<(), StateError> {
    let mut state_manager = StateManager::new();
    let task_id = TaskId::new("test1");
    let task = make_task("test1", "test");

    state_manager.create_task(task)?;
    let retrieved_task = state_manager.get_task(&task_id)?;
    assert_eq!(retrieved_task.id, task_id);

    Ok(())
}

#[test]
fn tests_test_update_task_status() -> Result<(), StateError> {
    let mut state_manager = StateManager::new();
    let task_id = TaskId::new("test1");
    let task = make_task("test1", "test");

    state_manager.create_task(task)?;
    state_manager.update_task_status(&task_id, TaskStatus::Running)?;

    let updated_task = state_manager.get_task(&task_id)?;
    assert_eq!(updated_task.status, TaskStatus::Running);

    Ok(())
}

#[test]
fn tests_test_delete_task() -> Result<(), StateError> {
    let mut state_manager = StateManager::new();
    let task_id = TaskId::new("test1");
    let task = make_task("test1", "test");

    state_manager.create_task(task)?;
    state_manager.delete_task(&task_id)?;

    let result = state_manager.get_task(&task_id);
    assert!(result.is_err());

    Ok(())
}

#[test]
fn tests_test_list_tasks() -> Result<(), StateError> {
    let mut state_manager = StateManager::new();
    let task1 = make_task("test1", "test1");
    let task2 = make_task("test2", "test2");

    state_manager.create_task(task1)?;
    state_manager.create_task(task2)?;

    let tasks = state_manager.list_tasks()?;
    assert_eq!(tasks.len(), 2);

    Ok(())
}

#[test]
fn tests_test_get_tasks_by_status() -> Result<(), StateError> {
    let mut state_manager = StateManager::new();
    let task_id1 = TaskId::new("test1");
    let task1 = make_task("test1", "test1");
    let task2 = make_task("test2", "test2");

    state_manager.create_task(task1)?;
    state_manager.create_task(task2)?;

    state_manager.update_task_status(&task_id1, TaskStatus::Running)?;

    let running_tasks = state_manager.get_tasks_by_status(TaskStatus::Running)?;
    assert_eq!(running_tasks.len(), 1);
    assert_eq!(running_tasks[0].id, task_id1);

    Ok(())
}

#[test]
fn tests_test_get_ready_tasks() -> Result<(), StateError> {
    let mut state_manager = StateManager::new();
    let task1 = make_task("test1", "test1");
    let task2 = make_task("test2", "test2");

    state_manager.create_task(task1)?;
    state_manager.create_task(task2)?;

    let ready_tasks = state_manager.get_ready_tasks()?;
    assert_eq!(ready_tasks.len(), 2);

    Ok(())
}

#[test]
fn test_get_tasks_by_status_original() -> Result<(), StateError> {
    let mut state_manager = StateManager::new();
    let task_id1 = TaskId::new("test1");
    let task1 = make_task("test1", "test1");
    let task2 = make_task("test2", "test2");

    state_manager.create_task(task1)?;
    state_manager.create_task(task2)?;

    state_manager.update_task_status(&task_id1, TaskStatus::Running)?;

    let running_tasks = state_manager.get_tasks_by_status(TaskStatus::Running)?;
    assert_eq!(running_tasks.len(), 1);
    assert_eq!(running_tasks[0].id, task_id1);

    Ok(())
}

#[test]
fn test_get_ready_tasks_original() -> Result<(), StateError> {
    let mut state_manager = StateManager::new();
    let task1 = make_task("test1", "test1");
    let task2 = make_task("test2", "test2");

    state_manager.create_task(task1)?;
    state_manager.create_task(task2)?;

    let ready_tasks = state_manager.get_ready_tasks()?;
    assert_eq!(ready_tasks.len(), 2);

    Ok(())
}
