//! Store-level guarantees that span several operations, each proved from
//! the operations' contracts alone.

use vstd::prelude::*;

use crate::state::dependency::{lemma_reaches_self, lemma_reaches_step};
use crate::state::error::StateError;
use crate::state::manager::{
    create_task_post, delete_task_post, graph_unchanged, map_of_records, tasks_listed,
    update_task_status_post, StateManager,
};
use crate::state::types::{TaskStateView, TaskStatus};

verus! {

/// Uniqueness: creating a task under an id that is already stored fails
/// with `TaskAlreadyExists`, and the record stored first survives the
/// failed attempt unchanged.
pub proof fn lemma_duplicate_create_rejected(
    s0: StateManager,
    t1: TaskStateView,
    s1: StateManager,
    t2: TaskStateView,
    s2: StateManager,
    r2: Result<(), StateError>,
)
    requires
        create_task_post(s0, t1, s1, Ok(())),
        t2.id == t1.id,
        create_task_post(s1, t2, s2, r2),
    ensures
        r2 matches Err(StateError::TaskAlreadyExists(m)) && m@ == t1.id,
        s2.tasks() == s1.tasks(),
        s2.tasks()[t1.id] == t1,
{
    assert(s1.tasks().dom().contains(t2.id));
}

/// Round trip: a record accepted by `create_task` is stored exactly as
/// given, so a following `get_task` under its id returns an equal record.
pub proof fn lemma_create_then_get_roundtrip(
    s0: StateManager,
    t: TaskStateView,
    s1: StateManager,
)
    requires
        create_task_post(s0, t, s1, Ok(())),
    ensures
        s1.tasks().dom().contains(t.id),
        s1.tasks()[t.id] == t,
{
}

/// Dependency gating, refusal half: while some dependency of `b` does not
/// resolve to a stored record marked completed, marking `b` completed
/// fails with `DependenciesNotMet` and changes nothing.
pub proof fn lemma_completion_gated(
    pre: StateManager,
    b: Seq<char>,
    a: Seq<char>,
    post: StateManager,
    r: Result<(), StateError>,
)
    requires
        pre.tasks().dom().contains(b),
        pre.graph().deps_of(b).contains(a),
        !(pre.tasks().dom().contains(a) && pre.tasks()[a].status == TaskStatus::Completed),
        update_task_status_post(pre, b, TaskStatus::Completed, post, r),
    ensures
        r matches Err(StateError::DependenciesNotMet(m)) && m@ == b,
        post.tasks() == pre.tasks(),
{
    assert(!pre.deps_completed(b));
}

/// Dependency gating, success half: once every dependency of `b` resolves
/// to a completed record, marking `b` completed must succeed and is
/// recorded.
pub proof fn lemma_completion_when_deps_met(
    pre: StateManager,
    b: Seq<char>,
    post: StateManager,
    r: Result<(), StateError>,
)
    requires
        pre.tasks().dom().contains(b),
        pre.deps_completed(b),
        update_task_status_post(pre, b, TaskStatus::Completed, post, r),
    ensures
        r is Ok,
        post.tasks().dom().contains(b),
        post.tasks()[b].status == TaskStatus::Completed,
{
}

/// Cycle rejection: once `a` depends on `b`, creating `b` with a declared
/// dependency on `a` fails with `CircularDependency`, and neither the task
/// map nor any edge set shows a trace of the attempt.
pub proof fn lemma_mutual_dependency_rejected(
    s: StateManager,
    a: Seq<char>,
    b: Seq<char>,
    t: TaskStateView,
    post: StateManager,
    r: Result<(), StateError>,
)
    requires
        s.graph().deps_of(a).contains(b),
        t.id == b,
        t.metadata.dependencies.contains(a),
        !s.tasks().dom().contains(b),
        create_task_post(s, t, post, r),
    ensures
        r matches Err(StateError::CircularDependency(m)) && m@ == b,
        post.tasks() == s.tasks(),
        graph_unchanged(s, post),
{
    lemma_reaches_self(s.graph(), a);
    lemma_reaches_step(s.graph(), a, a, b);
}

/// Deletion cleanup: after a successful `delete_task`, no edge set of the
/// graph mentions the deleted id in either direction.
pub proof fn lemma_delete_cleans_edges(pre: StateManager, id: Seq<char>, post: StateManager)
    requires
        delete_task_post(pre, id, post, Ok(())),
    ensures
        post.graph().deps_of(id) == Set::<Seq<char>>::empty(),
        post.graph().rents_of(id) == Set::<Seq<char>>::empty(),
        forall|k: Seq<char>| !(#[trigger] post.graph().deps_of(k).contains(id)),
        forall|k: Seq<char>| !(#[trigger] post.graph().rents_of(k).contains(id)),
        !post.tasks().dom().contains(id),
{
}

/// A list that `tasks_listed` ties to a store stands for exactly that
/// store's task map.
proof fn lemma_listed_records_map(l: Seq<TaskStateView>, m: Map<Seq<char>, TaskStateView>)
    requires
        forall|i: int, j: int| 0 <= i < j < l.len() ==> l[i].id != l[j].id,
        forall|i: int| 0 <= i < l.len() ==> m.dom().contains(#[trigger] l[i].id) && m[l[i].id] == l[i],
        forall|k: Seq<char>| #[trigger]
            m.dom().contains(k) ==> exists|i: int| 0 <= i < l.len() && l[i].id == k,
    ensures
        map_of_records(l) == m,
    decreases l.len(),
{
    if l.len() == 0 {
        assert forall|k: Seq<char>| !(#[trigger] m.dom().contains(k)) by {}
        assert(map_of_records(l) =~= m);
    } else {
        let last = l.last();
        let l2 = l.drop_last();
        let m2 = m.remove(last.id);
        assert forall|i: int|
            0 <= i < l2.len() implies m2.dom().contains(#[trigger] l2[i].id) && m2[l2[i].id]
            == l2[i] by {
            assert(l[i].id != last.id);
        }
        assert forall|k: Seq<char>| #[trigger]
            m2.dom().contains(k) implies exists|i: int| 0 <= i < l2.len() && l2[i].id == k by {
            let i = choose|i: int| 0 <= i < l.len() && l[i].id == k;
            assert(i != l.len() - 1);
            assert(l2[i].id == k);
        }
        lemma_listed_records_map(l2, m2);
        assert(map_of_records(l) == m2.insert(last.id, last));
        assert(m2.insert(last.id, last) =~= m);
    }
}

/// Snapshot idempotence: restoring a snapshot that was taken from a store
/// brings the task map back to exactly what it was when the snapshot was
/// taken, so the listed tasks are unchanged.
pub proof fn lemma_snapshot_restore_identity(
    source: StateManager,
    snap: Seq<TaskStateView>,
    restored: StateManager,
)
    requires
        tasks_listed(source, snap),
        restored.tasks() == map_of_records(snap),
    ensures
        restored.tasks() == source.tasks(),
{
    lemma_listed_records_map(snap, source.tasks());
}

/// No lost insertions: a run of successful `create_task` calls with
/// pairwise distinct ids leaves every one of the records present in the
/// final store. The store hands out its state only through `&mut`
/// exclusive access, so concurrent callers are serialized into exactly
/// such a run.
pub proof fn lemma_distinct_creations_all_present(
    states: Seq<StateManager>,
    recs: Seq<TaskStateView>,
)
    requires
        states.len() == recs.len() + 1,
        forall|i: int, j: int| 0 <= i < j < recs.len() ==> recs[i].id != recs[j].id,
        forall|i: int|
            0 <= i < recs.len() ==> create_task_post(
                #[trigger] states[i],
                recs[i],
                states[i + 1],
                Ok(()),
            ),
    ensures
        forall|i: int|
            0 <= i < recs.len() ==> states.last().tasks().dom().contains(#[trigger] recs[i].id)
                && states.last().tasks()[recs[i].id] == recs[i],
    decreases recs.len(),
{
    if recs.len() > 0 {
        let n = recs.len() as int;
        let states2 = states.drop_last();
        let recs2 = recs.drop_last();
        assert forall|i: int|
            0 <= i < recs2.len() implies create_task_post(
            #[trigger] states2[i],
            recs2[i],
            states2[i + 1],
            Ok(()),
        ) by {
            assert(states2[i] == states[i]);
            assert(states2[i + 1] == states[i + 1]);
            assert(recs2[i] == recs[i]);
        }
        lemma_distinct_creations_all_present(states2, recs2);
        assert(states.last().tasks() == states[n - 1].tasks().insert(recs[n - 1].id, recs[n - 1]));
        assert forall|i: int|
            0 <= i < recs.len() implies states.last().tasks().dom().contains(
            #[trigger] recs[i].id,
        ) && states.last().tasks()[recs[i].id] == recs[i] by {
            if i < n - 1 {
                assert(recs2[i] == recs[i]);
                assert(states2.last() == states[n - 1]);
                assert(states2.last().tasks().dom().contains(recs2[i].id));
                assert(states2.last().tasks()[recs2[i].id] == recs2[i]);
                assert(recs[i].id != recs[n - 1].id);
            }
        }
    }
}

} // verus!
