//! The task store: the single source of truth for task existence and
//! status, joined with the dependency graph.
//!
//! Policy choices, applied uniformly and stated in the contracts:
//! - `create_task` does not require declared dependencies to exist yet;
//!   a missing dependency merely keeps the task from becoming ready.
//! - Dependency queries on an unknown id return the empty set rather than
//!   an error, matching the graph underneath.
//! - A task can be marked `Completed` only while every dependency resolves
//!   to a stored, completed record.
//!
//! The store is reached through exclusive references, so callers that
//! share one instance across threads put it behind a lock; each operation
//! then appears atomic, and a run of operations is serialized.

use vstd::prelude::*;

use crate::state::clock::now_millis;
use crate::state::dependency::{push_id, reaches, remove_id, DependencyGraph};
use crate::state::error::StateError;
use crate::state::types::{clone_ids, StateSnapshot, TaskId, TaskState, TaskStateView, TaskStatus};

verus! {

use vstd::hash_map::StringHashMap;

broadcast use vstd::seq_lib::lemma_seq_contains_after_push;

/// An in-memory map of task id to task record, with a dependency graph at
/// its side. The `order` list carries the keys so the map can be walked.
pub struct StateManager {
    states: StringHashMap<TaskState>,
    order: Vec<TaskId>,
    dependencies: DependencyGraph,
}

impl StateManager {
    /// The stored task map, as a mathematical map from id text to record
    /// view.
    pub closed spec fn tasks(&self) -> Map<Seq<char>, TaskStateView> {
        Map::new(
            |k: Seq<char>| self.states@.dom().contains(k),
            |k: Seq<char>| self.states@[k]@,
        )
    }

    /// The dependency graph the store consults.
    pub closed spec fn graph(&self) -> DependencyGraph {
        self.dependencies
    }

    /// Internal consistency: the key list mirrors the map's domain without
    /// duplicates, every record sits under its own id, and the graph is
    /// well-formed.
    pub closed spec fn wf(&self) -> bool {
        &&& self.order.deep_view().no_duplicates()
        &&& forall|k: Seq<char>|
            #[trigger] self.states@.dom().contains(k) <==> self.order.deep_view().contains(k)
        &&& forall|k: Seq<char>|
            #[trigger] self.states@.dom().contains(k) ==> self.states@[k].id@ == k
        &&& self.dependencies.wf()
    }

    /// Does every dependency of `k` resolve to a stored record marked
    /// `Completed`?
    pub open spec fn deps_completed(&self, k: Seq<char>) -> bool {
        forall|d: Seq<char>| #[trigger]
            self.graph().deps_of(k).contains(d) ==> self.tasks().dom().contains(d)
                && self.tasks()[d].status == TaskStatus::Completed
    }

    /// Is the stored task `k` eligible to run: pending, with every
    /// dependency completed?
    pub open spec fn ready(&self, k: Seq<char>) -> bool {
        &&& self.tasks().dom().contains(k)
        &&& self.tasks()[k].status == TaskStatus::Pending
        &&& self.deps_completed(k)
    }
}

/// Both adjacency views of the graph are untouched between `pre` and
/// `post`.
pub open spec fn graph_unchanged(pre: StateManager, post: StateManager) -> bool {
    &&& forall|k: Seq<char>| #[trigger] post.graph().deps_of(k) == pre.graph().deps_of(k)
    &&& forall|k: Seq<char>| #[trigger] post.graph().rents_of(k) == pre.graph().rents_of(k)
}

/// Between `pre` and `post` the graph gained exactly the edges `id -> d`
/// for each `d` in `deps`, in both directions.
pub open spec fn graph_registered(
    pre: StateManager,
    post: StateManager,
    id: Seq<char>,
    deps: Seq<Seq<char>>,
) -> bool {
    &&& forall|k: Seq<char>|
        k != id ==> #[trigger] post.graph().deps_of(k) == pre.graph().deps_of(k)
    &&& post.graph().deps_of(id) == pre.graph().deps_of(id) + deps.to_set()
    &&& forall|k: Seq<char>| #[trigger]
        post.graph().rents_of(k) == if deps.contains(k) {
            pre.graph().rents_of(k).insert(id)
        } else {
            pre.graph().rents_of(k)
        }
}

/// Everything `create_task` promises, in both outcomes: a duplicate id is
/// refused as such, a dependency cycle is refused as such, and otherwise
/// the record is stored unchanged and its edges registered. A refusal
/// leaves the store and the graph exactly as they were.
pub open spec fn create_task_post(
    pre: StateManager,
    task: TaskStateView,
    post: StateManager,
    r: Result<(), StateError>,
) -> bool {
    match r {
        Ok(()) => {
            &&& !pre.tasks().dom().contains(task.id)
            &&& !(exists|d: Seq<char>|
                task.metadata.dependencies.contains(d) && reaches(pre.graph(), d, task.id))
            &&& post.tasks() == pre.tasks().insert(task.id, task)
            &&& graph_registered(pre, post, task.id, task.metadata.dependencies)
        },
        Err(StateError::TaskAlreadyExists(s)) => {
            &&& s@ == task.id
            &&& pre.tasks().dom().contains(task.id)
            &&& post.tasks() == pre.tasks()
            &&& graph_unchanged(pre, post)
        },
        Err(StateError::CircularDependency(s)) => {
            &&& s@ == task.id
            &&& !pre.tasks().dom().contains(task.id)
            &&& exists|d: Seq<char>|
                task.metadata.dependencies.contains(d) && reaches(pre.graph(), d, task.id)
            &&& post.tasks() == pre.tasks()
            &&& graph_unchanged(pre, post)
        },
        _ => false,
    }
}

/// Everything `update_task_status` promises: an unknown id is refused as
/// such; marking `Completed` with an incomplete dependency is refused as
/// such; otherwise only the status and the update timestamp of the one
/// record change, and the timestamp never runs backwards.
pub open spec fn update_task_status_post(
    pre: StateManager,
    id: Seq<char>,
    status: TaskStatus,
    post: StateManager,
    r: Result<(), StateError>,
) -> bool {
    match r {
        Ok(()) => {
            &&& pre.tasks().dom().contains(id)
            &&& status == TaskStatus::Completed ==> pre.deps_completed(id)
            &&& post.tasks().dom() == pre.tasks().dom()
            &&& forall|k: Seq<char>|
                k != id && pre.tasks().dom().contains(k) ==> #[trigger] post.tasks()[k]
                    == pre.tasks()[k]
            &&& post.tasks()[id].status == status
            &&& post.tasks()[id].id == pre.tasks()[id].id
            &&& post.tasks()[id].metadata == pre.tasks()[id].metadata
            &&& post.tasks()[id].created_at == pre.tasks()[id].created_at
            &&& post.tasks()[id].updated_at >= pre.tasks()[id].updated_at
            &&& post.tasks()[id].updated_at >= post.tasks()[id].created_at
            &&& graph_unchanged(pre, post)
        },
        Err(StateError::TaskNotFound(s)) => {
            &&& s@ == id
            &&& !pre.tasks().dom().contains(id)
            &&& post.tasks() == pre.tasks()
            &&& graph_unchanged(pre, post)
        },
        Err(StateError::DependenciesNotMet(s)) => {
            &&& s@ == id
            &&& pre.tasks().dom().contains(id)
            &&& status == TaskStatus::Completed
            &&& !pre.deps_completed(id)
            &&& post.tasks() == pre.tasks()
            &&& graph_unchanged(pre, post)
        },
        _ => false,
    }
}

/// Everything `delete_task` promises: an unknown id is refused as such;
/// otherwise the record disappears and every graph edge touching the id is
/// cleaned up in both directions.
pub open spec fn delete_task_post(
    pre: StateManager,
    id: Seq<char>,
    post: StateManager,
    r: Result<(), StateError>,
) -> bool {
    match r {
        Ok(()) => {
            &&& pre.tasks().dom().contains(id)
            &&& post.tasks() == pre.tasks().remove(id)
            &&& forall|k: Seq<char>| #[trigger]
                post.graph().deps_of(k) == if k == id {
                    Set::<Seq<char>>::empty()
                } else {
                    pre.graph().deps_of(k).remove(id)
                }
            &&& forall|k: Seq<char>| #[trigger]
                post.graph().rents_of(k) == if k == id {
                    Set::<Seq<char>>::empty()
                } else {
                    pre.graph().rents_of(k).remove(id)
                }
        },
        Err(StateError::TaskNotFound(s)) => {
            &&& s@ == id
            &&& !pre.tasks().dom().contains(id)
            &&& post.tasks() == pre.tasks()
            &&& graph_unchanged(pre, post)
        },
        _ => false,
    }
}

impl StateManager {
    pub fn new() -> (s: Self)
        ensures
            s.wf(),
            s.tasks() == Map::<Seq<char>, TaskStateView>::empty(),
            forall|k: Seq<char>| #[trigger] s.graph().deps_of(k) == Set::<Seq<char>>::empty(),
            forall|k: Seq<char>| #[trigger] s.graph().rents_of(k) == Set::<Seq<char>>::empty(),
    {
        let s = StateManager {
            states: StringHashMap::new(),
            order: Vec::new(),
            dependencies: DependencyGraph::new(),
        };
        proof {
            assert(s.order.deep_view() =~= Seq::<Seq<char>>::empty());
            assert(s.tasks() =~= Map::<Seq<char>, TaskStateView>::empty());
        }
        s
    }

    /// Stores a new task record and registers its declared dependencies
    /// with the graph. Declared dependencies need not exist yet; a missing
    /// one only keeps the task from becoming ready.
    #[verifier::loop_isolation(false)]
    pub fn create_task(&mut self, task: TaskState) -> (r: Result<(), StateError>)
        requires
            old(self).wf(),
        ensures
            final(self).wf(),
            create_task_post(*old(self), task@, *final(self), r),
    {
        let task_id = task.id.clone();
        if self.states.contains_key(task_id.0.as_str()) {
            return Err(StateError::TaskAlreadyExists(task_id.as_string()));
        }
        let deps = clone_ids(&task.metadata.dependencies);
        let ghost g0 = self.dependencies;
        let ghost depsv = deps.deep_view();
        match self.dependencies.add_task(task_id.clone(), deps) {
            Err(e) => {
                proof {
                    assert(self.tasks() =~= old(self).tasks());
                    let d0 = choose|d: Seq<char>| depsv.contains(d) && reaches(g0, d, task_id@);
                    assert(task@.metadata.dependencies.contains(d0) && reaches(
                        old(self).graph(),
                        d0,
                        task@.id,
                    ));
                }
                return Err(e);
            },
            Ok(()) => {},
        }
        let ghost gid = task_id@;
        let ghost gtask = task@;
        self.states.insert(task_id.0.clone(), task);
        push_id(&mut self.order, task_id);
        proof {
            assert(self.tasks() =~= old(self).tasks().insert(gid, gtask));
        }
        Ok(())
    }

    /// A copy of the stored record under `id`, or `TaskNotFound`.
    pub fn get_task(&self, id: &TaskId) -> (r: Result<TaskState, StateError>)
        requires
            self.wf(),
        ensures
            match r {
                Ok(t) => self.tasks().dom().contains(id@) && t@ == self.tasks()[id@],
                Err(e) => {
                    &&& e matches StateError::TaskNotFound(s) && s@ == id@
                    &&& !self.tasks().dom().contains(id@)
                },
            },
    {
        match self.states.get(id.0.as_str()) {
            Some(t) => Ok(t.clone()),
            None => Err(StateError::TaskNotFound(id.as_string())),
        }
    }

    /// Does every dependency of `id` resolve to a completed record?
    #[verifier::loop_isolation(false)]
    fn all_deps_completed(&self, id: &TaskId) -> (b: bool)
        requires
            self.wf(),
        ensures
            b == self.deps_completed(id@),
    {
        let deps = match self.dependencies.get_dependencies(id) {
            Ok(v) => v,
            Err(_) => {
                proof {
                    assert(false);
                }
                Vec::new()
            },
        };
        let ghost dv = deps.deep_view();
        let mut j: usize = 0;
        while j < deps.len()
            invariant
                j <= deps.len(),
                forall|jj: int|
                    0 <= jj < j ==> {
                        &&& self.tasks().dom().contains(#[trigger] dv[jj])
                        &&& self.tasks()[dv[jj]].status == TaskStatus::Completed
                    },
            decreases deps.len() - j,
        {
            let ok = match self.states.get(deps[j].0.as_str()) {
                Some(t) => t.status == TaskStatus::Completed,
                None => false,
            };
            if !ok {
                proof {
                    let d = dv[j as int];
                    assert(deps.deep_view().to_set().contains(d));
                    assert(self.graph().deps_of(id@).contains(d));
                    assert(!self.deps_completed(id@));
                }
                return false;
            }
            j = j + 1;
        }
        proof {
            assert forall|d: Seq<char>| #[trigger]
                self.graph().deps_of(id@).contains(d) implies self.tasks().dom().contains(d)
                && self.tasks()[d].status == TaskStatus::Completed by {
                assert(dv.to_set().contains(d));
                let jj = choose|jj: int| 0 <= jj < dv.len() && dv[jj] == d;
            }
        }
        true
    }

    /// Sets the status of the stored task `id`, refreshing its update
    /// timestamp. Marking a task `Completed` is allowed only while every
    /// one of its dependencies resolves to a completed record.
    #[verifier::loop_isolation(false)]
    pub fn update_task_status(&mut self, id: &TaskId, status: TaskStatus) -> (r: Result<
        (),
        StateError,
    >)
        requires
            old(self).wf(),
        ensures
            final(self).wf(),
            update_task_status_post(*old(self), id@, status, *final(self), r),
    {
        let cur: TaskState = match self.states.get(id.0.as_str()) {
            Some(t) => t.clone(),
            None => {
                return Err(StateError::TaskNotFound(id.as_string()));
            },
        };
        if status == TaskStatus::Completed {
            if !self.all_deps_completed(id) {
                return Err(StateError::DependenciesNotMet(id.as_string()));
            }
        }
        let mut stamp = now_millis();
        if stamp < cur.updated_at {
            stamp = cur.updated_at;
        }
        if stamp < cur.created_at {
            stamp = cur.created_at;
        }
        let updated = TaskState {
            id: cur.id,
            status,
            metadata: cur.metadata,
            created_at: cur.created_at,
            updated_at: stamp,
        };
        self.states.insert(id.0.clone(), updated);
        proof {
            assert(self.tasks().dom() =~= old(self).tasks().dom());
        }
        Ok(())
    }

    /// Removes the stored task `id` and scrubs every graph edge touching
    /// it, forward and reverse.
    pub fn delete_task(&mut self, id: &TaskId) -> (r: Result<(), StateError>)
        requires
            old(self).wf(),
        ensures
            final(self).wf(),
            delete_task_post(*old(self), id@, *final(self), r),
    {
        if !self.states.contains_key(id.0.as_str()) {
            return Err(StateError::TaskNotFound(id.as_string()));
        }
        self.states.remove(id.0.as_str());
        remove_id(&mut self.order, id);
        match self.dependencies.remove_task(id) {
            Ok(()) => {},
            Err(_) => {},
        }
        proof {
            assert(self.tasks() =~= old(self).tasks().remove(id@));
        }
        Ok(())
    }
}

/// `l` lists exactly the records of the store `s`: one entry per stored id,
/// each equal to its stored record, in no promised order.
pub open spec fn tasks_listed(s: StateManager, l: Seq<TaskStateView>) -> bool {
    &&& forall|i: int, j: int| 0 <= i < j < l.len() ==> l[i].id != l[j].id
    &&& forall|i: int|
        0 <= i < l.len() ==> s.tasks().dom().contains(#[trigger] l[i].id) && l[i] == s.tasks()[l[i].id]
    &&& forall|k: Seq<char>| #[trigger]
        s.tasks().dom().contains(k) ==> exists|i: int| 0 <= i < l.len() && l[i].id == k
    &&& l.len() == s.tasks().dom().len()
}

/// The task map a list of records stands for; a later record wins a
/// repeated id.
pub open spec fn map_of_records(l: Seq<TaskStateView>) -> Map<Seq<char>, TaskStateView>
    decreases l.len(),
{
    if l.len() == 0 {
        Map::empty()
    } else {
        map_of_records(l.drop_last()).insert(l.last().id, l.last())
    }
}

/// Appending one record to a list appends its view to the list's view.
fn push_task(v: &mut Vec<TaskState>, t: TaskState)
    ensures
        final(v).deep_view() == old(v).deep_view().push(t@),
{
    let ghost gt = t@;
    v.push(t);
    proof {
        assert(v.deep_view() =~= old(v).deep_view().push(gt));
    }
}

impl StateManager {
    /// A copy of every stored record, in no promised order.
    #[verifier::loop_isolation(false)]
    pub fn list_tasks(&self) -> (r: Result<Vec<TaskState>, StateError>)
        requires
            self.wf(),
        ensures
            r matches Ok(v) && tasks_listed(*self, v.deep_view()),
    {
        let ghost ov = self.order.deep_view();
        let mut out: Vec<TaskState> = Vec::new();
        let mut i: usize = 0;
        while i < self.order.len()
            invariant
                i <= self.order.len(),
                out.deep_view().len() == i,
                forall|jj: int|
                    0 <= jj < i ==> {
                        &&& (#[trigger] out.deep_view()[jj]).id == ov[jj]
                        &&& out.deep_view()[jj] == self.tasks()[ov[jj]]
                    },
            decreases self.order.len() - i,
        {
            proof {
                assert(ov.contains(ov[i as int]));
            }
            match self.states.get(self.order[i].0.as_str()) {
                Some(t) => {
                    push_task(&mut out, t.clone());
                },
                None => {
                    proof {
                        assert(false);
                    }
                },
            }
            i = i + 1;
        }
        proof {
            let l = out.deep_view();
            assert forall|k: Seq<char>| #[trigger]
                self.tasks().dom().contains(k) implies exists|i: int|
                0 <= i < l.len() && l[i].id == k by {
                assert(ov.contains(k));
                let jj = choose|jj: int| 0 <= jj < ov.len() && ov[jj] == k;
                assert(l[jj].id == k);
            }
            assert(self.tasks().dom() =~= ov.to_set());
            self.order.deep_view().unique_seq_to_set();
        }
        Ok(out)
    }

    /// Copies of the stored records whose status equals `status`.
    #[verifier::loop_isolation(false)]
    pub fn get_tasks_by_status(&self, status: TaskStatus) -> (r: Result<Vec<TaskState>, StateError>)
        requires
            self.wf(),
        ensures
            r matches Ok(v) && {
                let l = v.deep_view();
                &&& forall|i: int, j: int| 0 <= i < j < l.len() ==> l[i].id != l[j].id
                &&& forall|i: int|
                    0 <= i < l.len() ==> {
                        &&& self.tasks().dom().contains(#[trigger] l[i].id)
                        &&& l[i] == self.tasks()[l[i].id]
                        &&& l[i].status == status
                    }
                &&& forall|k: Seq<char>| #[trigger]
                    self.tasks().dom().contains(k) && self.tasks()[k].status == status
                        ==> exists|i: int| 0 <= i < l.len() && l[i].id == k
            },
    {
        let ghost ov = self.order.deep_view();
        let mut out: Vec<TaskState> = Vec::new();
        let mut i: usize = 0;
        while i < self.order.len()
            invariant
                i <= self.order.len(),
                forall|ii: int, jj: int|
                    0 <= ii < jj < out.deep_view().len() ==> out.deep_view()[ii].id
                        != out.deep_view()[jj].id,
                forall|jj: int|
                    0 <= jj < out.deep_view().len() ==> {
                        &&& self.tasks().dom().contains((#[trigger] out.deep_view()[jj]).id)
                        &&& out.deep_view()[jj] == self.tasks()[out.deep_view()[jj].id]
                        &&& out.deep_view()[jj].status == status
                        &&& ov.subrange(0, i as int).contains(out.deep_view()[jj].id)
                    },
                forall|jj: int|
                    0 <= jj < i && self.tasks().dom().contains(#[trigger] ov[jj])
                        && self.tasks()[ov[jj]].status == status ==> exists|x: int|
                        0 <= x < out.deep_view().len() && out.deep_view()[x].id == ov[jj],
            decreases self.order.len() - i,
        {
            proof {
                assert(ov.contains(ov[i as int]));
                assert(ov.subrange(0, i as int + 1) =~= ov.subrange(0, i as int).push(
                    ov[i as int],
                ));
            }
            let ghost pre_out = out.deep_view();
            match self.states.get(self.order[i].0.as_str()) {
                Some(t) => {
                    if t.status == status {
                        push_task(&mut out, t.clone());
                        proof {
                            assert(out.deep_view()[out.deep_view().len() - 1].id
                                == ov[i as int]);
                        }
                    }
                },
                None => {
                    proof {
                        assert(false);
                    }
                },
            }
            proof {
                assert forall|jj: int|
                    0 <= jj < i + 1 && self.tasks().dom().contains(#[trigger] ov[jj])
                        && self.tasks()[ov[jj]].status == status implies exists|x: int|
                    0 <= x < out.deep_view().len() && out.deep_view()[x].id == ov[jj] by {
                    if jj < i {
                        let x = choose|x: int| 0 <= x < pre_out.len() && pre_out[x].id == ov[jj];
                        assert(out.deep_view()[x].id == ov[jj]);
                    } else {
                        assert(out.deep_view()[out.deep_view().len() - 1].id == ov[jj]);
                    }
                }
            }
            i = i + 1;
        }
        proof {
            assert(ov.subrange(0, ov.len() as int) =~= ov);
            let l = out.deep_view();
            assert forall|ii: int, jj: int|
                0 <= ii < jj < l.len() implies l[ii].id != l[jj].id by {}
            assert forall|k: Seq<char>| #[trigger]
                self.tasks().dom().contains(k) && self.tasks()[k].status == status implies exists|
                x: int,
            | 0 <= x < l.len() && l[x].id == k by {
                assert(ov.contains(k));
                let jj = choose|jj: int| 0 <= jj < ov.len() && ov[jj] == k;
            }
        }
        Ok(out)
    }

    /// Copies of the records eligible to run: pending, with every
    /// dependency resolving to a completed record. A task with a missing
    /// dependency is simply not ready. No order is promised.
    #[verifier::loop_isolation(false)]
    pub fn get_ready_tasks(&self) -> (r: Result<Vec<TaskState>, StateError>)
        requires
            self.wf(),
        ensures
            r matches Ok(v) && {
                let l = v.deep_view();
                &&& forall|i: int, j: int| 0 <= i < j < l.len() ==> l[i].id != l[j].id
                &&& forall|i: int|
                    0 <= i < l.len() ==> self.ready((#[trigger] l[i].id)) && l[i] == self.tasks()[l[i].id]
                &&& forall|k: Seq<char>| #[trigger]
                    self.ready(k) ==> exists|i: int| 0 <= i < l.len() && l[i].id == k
            },
    {
        let ghost ov = self.order.deep_view();
        let mut out: Vec<TaskState> = Vec::new();
        let mut i: usize = 0;
        while i < self.order.len()
            invariant
                i <= self.order.len(),
                forall|ii: int, jj: int|
                    0 <= ii < jj < out.deep_view().len() ==> out.deep_view()[ii].id
                        != out.deep_view()[jj].id,
                forall|jj: int|
                    0 <= jj < out.deep_view().len() ==> {
                        &&& self.ready((#[trigger] out.deep_view()[jj]).id)
                        &&& out.deep_view()[jj] == self.tasks()[out.deep_view()[jj].id]
                        &&& ov.subrange(0, i as int).contains(out.deep_view()[jj].id)
                    },
                forall|jj: int|
                    0 <= jj < i && self.ready(#[trigger] ov[jj]) ==> exists|x: int|
                        0 <= x < out.deep_view().len() && out.deep_view()[x].id == ov[jj],
            decreases self.order.len() - i,
        {
            proof {
                assert(ov.contains(ov[i as int]));
                assert(ov.subrange(0, i as int + 1) =~= ov.subrange(0, i as int).push(
                    ov[i as int],
                ));
            }
            let tid = self.order[i].clone();
            let ghost pre_out = out.deep_view();
            match self.states.get(tid.0.as_str()) {
                Some(t) => {
                    if t.status == TaskStatus::Pending {
                        let t2 = t.clone();
                        if self.all_deps_completed(&tid) {
                            push_task(&mut out, t2);
                            proof {
                                assert(out.deep_view()[out.deep_view().len() - 1].id
                                    == ov[i as int]);
                            }
                        }
                    }
                },
                None => {
                    proof {
                        assert(false);
                    }
                },
            }
            proof {
                assert forall|jj: int|
                    0 <= jj < i + 1 && self.ready(#[trigger] ov[jj]) implies exists|x: int|
                    0 <= x < out.deep_view().len() && out.deep_view()[x].id == ov[jj] by {
                    if jj < i {
                        let x = choose|x: int| 0 <= x < pre_out.len() && pre_out[x].id == ov[jj];
                        assert(out.deep_view()[x].id == ov[jj]);
                    } else {
                        assert(out.deep_view()[out.deep_view().len() - 1].id == ov[jj]);
                    }
                }
            }
            i = i + 1;
        }
        proof {
            assert(ov.subrange(0, ov.len() as int) =~= ov);
            let l = out.deep_view();
            assert forall|k: Seq<char>| #[trigger] self.ready(k) implies exists|x: int|
                0 <= x < l.len() && l[x].id == k by {
                assert(ov.contains(k));
                let jj = choose|jj: int| 0 <= jj < ov.len() && ov[jj] == k;
            }
        }
        Ok(out)
    }

    /// The dependency ids of `id` as the graph records them; empty when
    /// the id is unknown to the graph.
    pub fn get_task_dependencies(&self, id: &TaskId) -> (r: Result<Vec<TaskId>, StateError>)
        requires
            self.wf(),
        ensures
            r matches Ok(v) && v.deep_view().to_set() == self.graph().deps_of(id@)
                && v.deep_view().no_duplicates(),
    {
        self.dependencies.get_dependencies(id)
    }

    /// The ids depending on `id` as the graph records them; empty when the
    /// id is unknown to the graph.
    pub fn get_task_dependents(&self, id: &TaskId) -> (r: Result<Vec<TaskId>, StateError>)
        requires
            self.wf(),
        ensures
            r matches Ok(v) && v.deep_view().to_set() == self.graph().rents_of(id@)
                && v.deep_view().no_duplicates(),
    {
        self.dependencies.get_dependents(id)
    }

    /// A timestamped copy of the whole task map.
    pub fn take_snapshot(&self) -> (r: Result<StateSnapshot, StateError>)
        requires
            self.wf(),
        ensures
            r matches Ok(snap) && tasks_listed(*self, snap.tasks.deep_view()),
    {
        match self.list_tasks() {
            Ok(tasks) => Ok(StateSnapshot { tasks, timestamp: now_millis() }),
            Err(e) => Err(e),
        }
    }

    /// Replaces the whole task map with the snapshot's records; nothing of
    /// the old map survives, and the dependency graph is deliberately left
    /// as it is. A later record wins a repeated id.
    #[verifier::loop_isolation(false)]
    pub fn restore_snapshot(&mut self, snapshot: StateSnapshot) -> (r: Result<(), StateError>)
        requires
            old(self).wf(),
        ensures
            final(self).wf(),
            r is Ok,
            final(self).tasks() == map_of_records(snapshot.tasks.deep_view()),
            graph_unchanged(*old(self), *final(self)),
    {
        let ghost sv = snapshot.tasks.deep_view();
        self.states = StringHashMap::new();
        self.order = Vec::new();
        proof {
            assert(self.order.deep_view() =~= Seq::<Seq<char>>::empty());
            assert(self.tasks() =~= map_of_records(sv.subrange(0, 0)));
        }
        let mut i: usize = 0;
        while i < snapshot.tasks.len()
            invariant
                i <= snapshot.tasks.len(),
                self.dependencies == old(self).dependencies,
                self.order.deep_view().no_duplicates(),
                forall|k: Seq<char>|
                    #[trigger] self.states@.dom().contains(k) <==> self.order.deep_view().contains(
                        k,
                    ),
                forall|k: Seq<char>|
                    #[trigger] self.states@.dom().contains(k) ==> self.states@[k].id@ == k,
                self.tasks() == map_of_records(sv.subrange(0, i as int)),
            decreases snapshot.tasks.len() - i,
        {
            let t = snapshot.tasks[i].clone();
            let tid = t.id.clone();
            if !self.states.contains_key(tid.0.as_str()) {
                push_id(&mut self.order, tid.clone());
            }
            let ghost gt = t@;
            self.states.insert(tid.0.clone(), t);
            proof {
                let pre = sv.subrange(0, i as int);
                let cur = sv.subrange(0, i as int + 1);
                assert(cur.drop_last() =~= pre);
                assert(cur.last() == sv[i as int]);
                assert(sv[i as int] == gt);
                assert(map_of_records(cur) == map_of_records(pre).insert(gt.id, gt));
                assert(self.tasks() =~= map_of_records(pre).insert(gt.id, gt));
            }
            i = i + 1;
        }
        proof {
            assert(sv.subrange(0, sv.len() as int) =~= sv);
        }
        Ok(())
    }

    /// Registers additional dependencies for `task_id` with the graph,
    /// under the same cycle screening as `create_task`. The task map is
    /// untouched.
    pub fn add_dependency(&mut self, task_id: TaskId, dependencies: Vec<TaskId>) -> (r: Result<
        (),
        StateError,
    >)
        requires
            old(self).wf(),
        ensures
            final(self).wf(),
            final(self).tasks() == old(self).tasks(),
            match r {
                Ok(()) => {
                    &&& !(exists|d: Seq<char>|
                        dependencies.deep_view().contains(d) && reaches(
                            old(self).graph(),
                            d,
                            task_id@,
                        ))
                    &&& graph_registered(
                        *old(self),
                        *final(self),
                        task_id@,
                        dependencies.deep_view(),
                    )
                },
                Err(e) => {
                    &&& e matches StateError::CircularDependency(s) && s@ == task_id@
                    &&& exists|d: Seq<char>|
                        dependencies.deep_view().contains(d) && reaches(
                            old(self).graph(),
                            d,
                            task_id@,
                        )
                    &&& graph_unchanged(*old(self), *final(self))
                },
            },
    {
        let r = self.dependencies.add_task(task_id, dependencies);
        proof {
            assert(self.tasks() =~= old(self).tasks());
        }
        r
    }
}

} // verus!
