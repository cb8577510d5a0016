use build_system::state::types::{TaskId, TaskMetadata, TaskState, TaskStatus};
use build_system::state::StateManager;

fn create_test_task(id: &str) -> TaskState {
    let task_id = TaskId::new(id);
    let mut task = TaskState::new(task_id);
    task.metadata = TaskMetadata {
        name: format!("Test Task {}", id),
        description: Some("Test task description".to_string()),
        owner: "test-owner".to_string(),
        dependencies: vec![],
        estimated_duration: 60_000,
        priority: 1,
        tags: vec!["test".to_string()],
        additional_info: Vec::new(),
    };
    task
}

#[test]
fn test_create_and_get_task() {
    let mut manager = StateManager::new();
    let task = create_test_task("test-task-1");

    manager.create_task(task.clone()).unwrap();

    let retrieved = manager.get_task(&task.id).unwrap();
    assert_eq!(retrieved, task);
}

#[test]
fn manager_test_update_task_status() {
    let mut manager = StateManager::new();
    let task = create_test_task("test-task-1");

    manager.create_task(task.clone()).unwrap();

    manager
        .update_task_status(&task.id, TaskStatus::Running)
        .unwrap();

    let updated = manager.get_task(&task.id).unwrap();
    assert_eq!(updated.status, TaskStatus::Running);
}

#[test]
fn manager_test_get_tasks_by_status() {
    let mut manager = StateManager::new();

    let task1 = create_test_task("test-task-1");
    let task2 = create_test_task("test-task-2");

    manager.create_task(task1).unwrap();
    manager.create_task(task2).unwrap();

    manager
        .update_task_status(&TaskId::new("test-task-1"), TaskStatus::Running)
        .unwrap();

    let running = manager.get_tasks_by_status(TaskStatus::Running).unwrap();
    assert_eq!(running.len(), 1);
    assert_eq!(running[0].id.0, "test-task-1");
}

#[test]
fn manager_test_get_ready_tasks() {
    let mut manager = StateManager::new();

    let task1 = create_test_task("test-task-1");
    let mut task2 = create_test_task("test-task-2");
    task2.metadata.dependencies.push(TaskId::new("test-task-1"));

    manager.create_task(task1).unwrap();
    manager.create_task(task2).unwrap();

    let ready = manager.get_ready_tasks().unwrap();
    assert_eq!(ready.len(), 1);
    assert_eq!(ready[0].id.0, "test-task-1");
}
