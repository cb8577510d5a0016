use build_system::state::dependency::DependencyGraph;
use build_system::state::error::StateError;
use build_system::state::types::TaskId;

#[test]
fn test_add_and_get_dependencies() {
    let mut graph = DependencyGraph::new();
    let task1 = TaskId::new("test-1");
    let task2 = TaskId::new("test-2");

    graph.add_task(task1.clone(), vec![task2.clone()]).unwrap();

    let deps = graph.get_dependencies(&task1).unwrap();
    assert_eq!(deps.len(), 1);
    assert!(deps.contains(&task2));

    let depts = graph.get_dependents(&task2).unwrap();
    assert_eq!(depts.len(), 1);
    assert!(depts.contains(&task1));
}

#[test]
fn test_remove_task() {
    let mut graph = DependencyGraph::new();
    let task1 = TaskId::new("test-1");
    let task2 = TaskId::new("test-2");

    graph.add_task(task1.clone(), vec![task2.clone()]).unwrap();

    graph.remove_task(&task1).unwrap();

    let deps = graph.get_dependencies(&task1).unwrap();
    assert_eq!(deps.len(), 0);

    let depts = graph.get_dependents(&task2).unwrap();
    assert_eq!(depts.len(), 0);
}

// The graph refuses insertions that would close a cycle, so a chain can be
// built but the edge that would loop it back is rejected and `has_cycle`
// stays false.
#[test]
fn test_cycle_detection() {
    let mut graph = DependencyGraph::new();
    let task1 = TaskId::new("test-1");
    let task2 = TaskId::new("test-2");
    let task3 = TaskId::new("test-3");

    graph.add_task(task1.clone(), vec![task2.clone()]).unwrap();
    graph.add_task(task2.clone(), vec![task3.clone()]).unwrap();

    let closing = graph.add_task(task3.clone(), vec![task1.clone()]);
    assert!(matches!(closing, Err(StateError::CircularDependency(_))));

    assert!(!graph.has_cycle());
}

#[test]
fn test_self_dependency_rejected() {
    let mut graph = DependencyGraph::new();
    let task1 = TaskId::new("solo");

    let r = graph.add_task(task1.clone(), vec![task1.clone()]);
    assert!(matches!(r, Err(StateError::CircularDependency(_))));
    assert_eq!(graph.get_dependencies(&task1).unwrap().len(), 0);
}

#[test]
fn test_rejected_cycle_leaves_graph_untouched() {
    let mut graph = DependencyGraph::new();
    let a = TaskId::new("a");
    let b = TaskId::new("b");

    graph.add_task(a.clone(), vec![b.clone()]).unwrap();
    let r = graph.add_task(b.clone(), vec![a.clone()]);
    assert!(matches!(r, Err(StateError::CircularDependency(id)) if id == "b"));

    // Exactly the first edge remains, in both directions.
    let deps_a = graph.get_dependencies(&a).unwrap();
    assert_eq!(deps_a.len(), 1);
    assert!(deps_a.contains(&b));
    assert_eq!(graph.get_dependencies(&b).unwrap().len(), 0);
    let rents_a = graph.get_dependents(&a).unwrap();
    assert_eq!(rents_a.len(), 0);
    let rents_b = graph.get_dependents(&b).unwrap();
    assert_eq!(rents_b.len(), 1);
    assert!(rents_b.contains(&a));
}

#[test]
fn test_transitive_cycle_rejected() {
    let mut graph = DependencyGraph::new();
    let a = TaskId::new("a");
    let b = TaskId::new("b");
    let c = TaskId::new("c");
    let d = TaskId::new("d");

    graph.add_task(a.clone(), vec![b.clone()]).unwrap();
    graph.add_task(b.clone(), vec![c.clone()]).unwrap();
    graph.add_task(c.clone(), vec![d.clone()]).unwrap();

    let r = graph.add_task(d.clone(), vec![a.clone()]);
    assert!(matches!(r, Err(StateError::CircularDependency(_))));

    // A diamond is still fine: d may depend on something off the chain.
    graph.add_task(d.clone(), vec![TaskId::new("e")]).unwrap();
}

#[test]
fn test_duplicate_dependencies_collapse() {
    let mut graph = DependencyGraph::new();
    let a = TaskId::new("a");
    let b = TaskId::new("b");

    graph
        .add_task(a.clone(), vec![b.clone(), b.clone(), b.clone()])
        .unwrap();
    let deps = graph.get_dependencies(&a).unwrap();
    assert_eq!(deps.len(), 1);
    assert!(deps.contains(&b));
}

#[test]
fn test_bidirectional_cleanup_on_remove() {
    let mut graph = DependencyGraph::new();
    let a = TaskId::new("a");
    let b = TaskId::new("b");
    let c = TaskId::new("c");

    // a depends on b; c depends on a.
    graph.add_task(a.clone(), vec![b.clone()]).unwrap();
    graph.add_task(c.clone(), vec![a.clone()]).unwrap();

    graph.remove_task(&a).unwrap();

    // Both directions are scrubbed: b has no dependents left, and c's
    // dependency list no longer mentions a.
    assert_eq!(graph.get_dependents(&b).unwrap().len(), 0);
    assert_eq!(graph.get_dependencies(&c).unwrap().len(), 0);
    assert_eq!(graph.get_dependencies(&a).unwrap().len(), 0);
    assert_eq!(graph.get_dependents(&a).unwrap().len(), 0);
}
