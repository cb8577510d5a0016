use build_system::state::error::StateError;
use build_system::state::types::{TaskId, TaskState, TaskStatus};
use build_system::state::StateManager;

fn plain_task(id: &str) -> TaskState {
    let mut task = TaskState::new(TaskId::new(id));
    task.metadata.name = format!("task {}", id);
    task
}

fn dependent_task(id: &str, deps: &[&str]) -> TaskState {
    let mut task = plain_task(id);
    task.metadata.dependencies = deps.iter().map(|d| TaskId::new(d)).collect();
    task
}

// Creating the same id twice fails the second time, and the first record
// survives unchanged.
#[test]
fn test_duplicate_creation_rejected() {
    let mut manager = StateManager::new();
    let first = plain_task("dup");
    let mut second = plain_task("dup");
    second.metadata.owner = "someone-else".to_string();

    manager.create_task(first.clone()).unwrap();
    let r = manager.create_task(second);
    assert!(matches!(r, Err(StateError::TaskAlreadyExists(id)) if id == "dup"));

    let stored = manager.get_task(&first.id).unwrap();
    assert_eq!(stored, first);
    assert_eq!(manager.list_tasks().unwrap().len(), 1);
}

// A created record is returned by get_task exactly as it went in.
#[test]
fn test_create_get_round_trip() {
    let mut manager = StateManager::new();
    let task = dependent_task("round-trip", &["other"]);

    manager.create_task(task.clone()).unwrap();
    let retrieved = manager.get_task(&task.id).unwrap();
    assert_eq!(retrieved, task);
}

// B cannot be completed until A is; afterwards it can.
#[test]
fn test_dependency_gating() {
    let mut manager = StateManager::new();
    let a = plain_task("a");
    let b = dependent_task("b", &["a"]);
    let b_id = b.id.clone();
    let a_id = a.id.clone();

    manager.create_task(a).unwrap();
    manager.create_task(b).unwrap();

    let blocked = manager.update_task_status(&b_id, TaskStatus::Completed);
    assert!(matches!(blocked, Err(StateError::DependenciesNotMet(id)) if id == "b"));
    assert_eq!(
        manager.get_task(&b_id).unwrap().status,
        TaskStatus::Pending
    );

    manager
        .update_task_status(&a_id, TaskStatus::Completed)
        .unwrap();
    manager
        .update_task_status(&b_id, TaskStatus::Completed)
        .unwrap();
    assert_eq!(
        manager.get_task(&b_id).unwrap().status,
        TaskStatus::Completed
    );
}

// A -> B then B -> A: the second insertion is refused as circular and
// leaves no partial state.
#[test]
fn test_mutual_dependency_rejected() {
    let mut manager = StateManager::new();
    let a = dependent_task("a", &["b"]);
    let b = dependent_task("b", &["a"]);
    let a_id = a.id.clone();
    let b_id = b.id.clone();

    manager.create_task(a).unwrap();
    let r = manager.create_task(b);
    assert!(matches!(r, Err(StateError::CircularDependency(id)) if id == "b"));

    // The refused task is absent from both the store and the graph.
    assert!(manager.get_task(&b_id).is_err());
    assert_eq!(manager.get_task_dependencies(&b_id).unwrap().len(), 0);
    let deps_a = manager.get_task_dependencies(&a_id).unwrap();
    assert_eq!(deps_a.len(), 1);
    assert!(deps_a.contains(&b_id));
}

// Readiness: first exactly {A}, and after completing A exactly {B}.
#[test]
fn test_readiness_progression() {
    let mut manager = StateManager::new();
    let a = plain_task("a");
    let b = dependent_task("b", &["a"]);
    let a_id = a.id.clone();

    manager.create_task(a).unwrap();
    manager.create_task(b).unwrap();

    let ready = manager.get_ready_tasks().unwrap();
    assert_eq!(ready.len(), 1);
    assert_eq!(ready[0].id.0, "a");

    manager
        .update_task_status(&a_id, TaskStatus::Completed)
        .unwrap();

    let ready = manager.get_ready_tasks().unwrap();
    assert_eq!(ready.len(), 1);
    assert_eq!(ready[0].id.0, "b");
}

// A task whose declared dependency was never created is not ready.
#[test]
fn test_missing_dependency_not_ready() {
    let mut manager = StateManager::new();
    let b = dependent_task("b", &["ghost"]);
    manager.create_task(b).unwrap();

    let ready = manager.get_ready_tasks().unwrap();
    assert_eq!(ready.len(), 0);
}

// After deleting A, no edge referencing A survives in either direction.
#[test]
fn test_deletion_cleanup() {
    let mut manager = StateManager::new();
    let a = plain_task("a");
    let b = dependent_task("b", &["a"]);
    let a_id = a.id.clone();
    let b_id = b.id.clone();

    manager.create_task(a).unwrap();
    manager.create_task(b).unwrap();
    manager.delete_task(&a_id).unwrap();

    assert_eq!(manager.get_task_dependents(&a_id).unwrap().len(), 0);
    assert_eq!(manager.get_task_dependencies(&a_id).unwrap().len(), 0);
    let deps_b = manager.get_task_dependencies(&b_id).unwrap();
    assert!(!deps_b.contains(&a_id));
}

// restore_snapshot(take_snapshot()) leaves list_tasks unchanged.
#[test]
fn test_snapshot_restore_identity() {
    let mut manager = StateManager::new();
    manager.create_task(plain_task("one")).unwrap();
    manager.create_task(dependent_task("two", &["one"])).unwrap();
    manager
        .update_task_status(&TaskId::new("one"), TaskStatus::Completed)
        .unwrap();

    let mut before = manager.list_tasks().unwrap();
    let snapshot = manager.take_snapshot().unwrap();
    manager.restore_snapshot(snapshot).unwrap();
    let mut after = manager.list_tasks().unwrap();

    before.sort_by(|x, y| x.id.0.cmp(&y.id.0));
    after.sort_by(|x, y| x.id.0.cmp(&y.id.0));
    assert_eq!(before, after);
}

// A snapshot is a full replacement, not a merge.
#[test]
fn test_restore_replaces_state() {
    let mut manager = StateManager::new();
    manager.create_task(plain_task("keep")).unwrap();
    let snapshot = manager.take_snapshot().unwrap();

    manager.create_task(plain_task("later")).unwrap();
    assert_eq!(manager.list_tasks().unwrap().len(), 2);

    manager.restore_snapshot(snapshot).unwrap();
    let tasks = manager.list_tasks().unwrap();
    assert_eq!(tasks.len(), 1);
    assert_eq!(tasks[0].id.0, "keep");
}

// Many creations with distinct ids: every one of them lands in the store.
#[test]
fn test_distinct_creations_all_present() {
    let mut manager = StateManager::new();
    let ids = ["n0", "n1", "n2", "n3", "n4", "n5", "n6", "n7"];
    for id in ids {
        manager.create_task(plain_task(id)).unwrap();
    }
    let tasks = manager.list_tasks().unwrap();
    assert_eq!(tasks.len(), ids.len());
    for id in ids {
        assert!(manager.get_task(&TaskId::new(id)).is_ok());
    }
}

// The error taxonomy: each kind comes exactly on its trigger.
#[test]
fn test_error_kinds() {
    let mut manager = StateManager::new();
    let ghost_id = TaskId::new("ghost");

    assert!(matches!(
        manager.get_task(&ghost_id),
        Err(StateError::TaskNotFound(id)) if id == "ghost"
    ));
    assert!(matches!(
        manager.update_task_status(&ghost_id, TaskStatus::Running),
        Err(StateError::TaskNotFound(_))
    ));
    assert!(matches!(
        manager.delete_task(&ghost_id),
        Err(StateError::TaskNotFound(_))
    ));

    let message = StateError::InvalidState("corrupt snapshot".to_string()).message();
    assert_eq!(message, "Invalid state: corrupt snapshot");
}

// update_task_status refreshes updated_at and never moves it backwards.
#[test]
fn test_update_refreshes_timestamp() {
    let mut manager = StateManager::new();
    let task = plain_task("stamped");
    let created_at = task.created_at;
    let id = task.id.clone();

    manager.create_task(task).unwrap();
    manager
        .update_task_status(&id, TaskStatus::Running)
        .unwrap();

    let updated = manager.get_task(&id).unwrap();
    assert!(updated.updated_at >= created_at);
    assert_eq!(updated.created_at, created_at);
}
