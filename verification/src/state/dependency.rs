//! The dependency graph: forward and reverse adjacency over task ids.
//!
//! The graph is kept acyclic by `add_task`, which refuses any insertion
//! whose new edges would close a cycle. Every forward edge `a -> b` (a
//! depends on b) is mirrored by the reverse edge `b -> a` (a is a dependent
//! of b); `wf` states that invariant and every operation preserves it.
//!
//! Lookups of an id that was never registered return the empty edge set, as
//! opposed to an error; "no dependencies" and "unknown id" are deliberately
//! indistinguishable here, and the store layers its own existence checks on
//! top.

use vstd::prelude::*;

use crate::state::error::StateError;
use crate::state::types::{clone_ids, TaskId};

verus! {

use vstd::hash_map::StringHashMap;
use vstd::seq_lib::*;
use vstd::set_lib::lemma_len_subset;

broadcast use vstd::seq_lib::lemma_seq_contains_after_push, vstd::seq_lib::seq_to_set_is_finite;

/// Is there a forward edge `a -> b`, that is, does `a` depend on `b`?
pub open spec fn edge(g: DependencyGraph, a: Seq<char>, b: Seq<char>) -> bool {
    g.deps_of(a).contains(b)
}

/// Do consecutive entries of `p` follow forward edges of `g`?
pub open spec fn is_dep_path(g: DependencyGraph, p: Seq<Seq<char>>) -> bool {
    p.len() >= 1 && forall|i: int|
        0 <= i < p.len() - 1 ==> edge(g, #[trigger] p[i], p[i + 1])
}

/// Can `b` be reached from `a` by following forward edges? The empty walk
/// counts, so every id reaches itself.
pub open spec fn reaches(g: DependencyGraph, a: Seq<char>, b: Seq<char>) -> bool {
    exists|p: Seq<Seq<char>>| is_dep_path(g, p) && p.first() == a && p.last() == b
}

/// Does the graph contain a dependency cycle?
pub open spec fn has_cycle_spec(g: DependencyGraph) -> bool {
    exists|k: Seq<char>, d: Seq<char>| edge(g, k, d) && reaches(g, d, k)
}

/// Forward adjacency (`dependencies`: task -> what it depends on) and
/// reverse adjacency (`dependents`: task -> what depends on it), with the
/// forward key list alongside so the node set can be walked.
pub struct DependencyGraph {
    dependencies: StringHashMap<Vec<TaskId>>,
    dependents: StringHashMap<Vec<TaskId>>,
    dep_keys: Vec<TaskId>,
}

impl DependencyGraph {
    /// The set of ids that `k` depends on; empty when `k` is unknown.
    pub closed spec fn deps_of(&self, k: Seq<char>) -> Set<Seq<char>> {
        if self.dependencies@.dom().contains(k) {
            self.dependencies@[k].deep_view().to_set()
        } else {
            Set::empty()
        }
    }

    /// The set of ids that depend on `k`; empty when `k` is unknown.
    pub closed spec fn rents_of(&self, k: Seq<char>) -> Set<Seq<char>> {
        if self.dependents@.dom().contains(k) {
            self.dependents@[k].deep_view().to_set()
        } else {
            Set::empty()
        }
    }

    /// Internal consistency: the key list mirrors the forward map's domain,
    /// edge lists hold no duplicates, and every forward edge `a -> b` is
    /// matched by the reverse edge `b -> a`.
    pub closed spec fn wf(&self) -> bool {
        &&& self.dep_keys.deep_view().no_duplicates()
        &&& forall|k: Seq<char>|
            #[trigger] self.dependencies@.dom().contains(k)
                <==> self.dep_keys.deep_view().contains(k)
        &&& forall|k: Seq<char>|
            #[trigger] self.dependencies@.dom().contains(k)
                ==> self.dependencies@[k].deep_view().no_duplicates()
        &&& forall|k: Seq<char>|
            #[trigger] self.dependents@.dom().contains(k)
                ==> self.dependents@[k].deep_view().no_duplicates()
        &&& forall|a: Seq<char>, b: Seq<char>|
            #[trigger] self.deps_of(a).contains(b) <==> #[trigger] self.rents_of(b).contains(a)
    }

    pub fn new() -> (g: Self)
        ensures
            g.wf(),
            forall|k: Seq<char>| #[trigger] g.deps_of(k) == Set::<Seq<char>>::empty(),
            forall|k: Seq<char>| #[trigger] g.rents_of(k) == Set::<Seq<char>>::empty(),
    {
        let g = DependencyGraph {
            dependencies: StringHashMap::new(),
            dependents: StringHashMap::new(),
            dep_keys: Vec::new(),
        };
        proof {
            assert(g.dep_keys.deep_view() =~= Seq::<Seq<char>>::empty());
        }
        g
    }

    /// The ids `task_id` depends on, without duplicates and in no promised
    /// order. Unknown ids yield the empty list.
    pub fn get_dependencies(&self, task_id: &TaskId) -> (r: Result<Vec<TaskId>, StateError>)
        requires
            self.wf(),
        ensures
            r matches Ok(v) && v.deep_view().to_set() == self.deps_of(task_id@)
                && v.deep_view().no_duplicates(),
    {
        match self.dependencies.get(task_id.0.as_str()) {
            Some(v) => {
                let r = clone_ids(v);
                proof {
                    assert(r.deep_view().to_set() =~= self.deps_of(task_id@));
                }
                Ok(r)
            },
            None => {
                let r: Vec<TaskId> = Vec::new();
                proof {
                    assert(r.deep_view() =~= Seq::<Seq<char>>::empty());
                    assert(r.deep_view().to_set() =~= self.deps_of(task_id@));
                }
                Ok(r)
            },
        }
    }

    /// The ids that depend on `task_id`, without duplicates and in no
    /// promised order. Unknown ids yield the empty list.
    pub fn get_dependents(&self, task_id: &TaskId) -> (r: Result<Vec<TaskId>, StateError>)
        requires
            self.wf(),
        ensures
            r matches Ok(v) && v.deep_view().to_set() == self.rents_of(task_id@)
                && v.deep_view().no_duplicates(),
    {
        match self.dependents.get(task_id.0.as_str()) {
            Some(v) => {
                let r = clone_ids(v);
                proof {
                    assert(r.deep_view().to_set() =~= self.rents_of(task_id@));
                }
                Ok(r)
            },
            None => {
                let r: Vec<TaskId> = Vec::new();
                proof {
                    assert(r.deep_view() =~= Seq::<Seq<char>>::empty());
                    assert(r.deep_view().to_set() =~= self.rents_of(task_id@));
                }
                Ok(r)
            },
        }
    }
}

/// Can `k` be reached from some member of `starts`?
pub open spec fn reaches_from_any(g: DependencyGraph, starts: Seq<Seq<char>>, k: Seq<char>) -> bool {
    exists|d: Seq<char>| starts.contains(d) && reaches(g, d, k)
}

impl DependencyGraph {
    /// A finite list of ids that covers every start, every node with an
    /// edge list, and every edge target: the worklist of `reachable_from`
    /// never leaves it, which bounds the saturation.
    #[verifier::loop_isolation(false)]
    fn edge_universe(&self, starts: &Vec<TaskId>) -> (uni: Vec<TaskId>)
        requires
            self.wf(),
        ensures
            forall|d: Seq<char>| #[trigger]
                starts.deep_view().contains(d) ==> uni.deep_view().contains(d),
            forall|k: Seq<char>, x: Seq<char>|
                self.dependencies@.dom().contains(k)
                    && #[trigger] self.dependencies@[k].deep_view().contains(x)
                    ==> uni.deep_view().contains(x),
    {
        let mut uni: Vec<TaskId> = clone_ids(starts);
        let mut i: usize = 0;
        while i < self.dep_keys.len()
            invariant
                i <= self.dep_keys.len(),
                forall|d: Seq<char>| #[trigger]
                    starts.deep_view().contains(d) ==> uni.deep_view().contains(d),
                forall|jj: int, x: Seq<char>|
                    0 <= jj < i && #[trigger] self.dependencies@[self.dep_keys.deep_view()[jj]].deep_view().contains(
                        x,
                    ) ==> uni.deep_view().contains(x),
            decreases self.dep_keys.len() - i,
        {
            let key = self.dep_keys[i].clone();
            match self.dependencies.get(key.0.as_str()) {
                Some(lst) => {
                    let mut j: usize = 0;
                    while j < lst.len()
                        invariant
                            j <= lst.len(),
                            forall|d: Seq<char>| #[trigger]
                                starts.deep_view().contains(d) ==> uni.deep_view().contains(d),
                            forall|jj: int, x: Seq<char>|
                                0 <= jj < i && #[trigger] self.dependencies@[self.dep_keys.deep_view()[jj]].deep_view().contains(
                                    x,
                                ) ==> uni.deep_view().contains(x),
                            forall|jj2: int|
                                0 <= jj2 < j ==> uni.deep_view().contains(
                                    #[trigger] lst.deep_view()[jj2],
                                ),
                        decreases lst.len() - j,
                    {
                        push_id(&mut uni, lst[j].clone());
                        j = j + 1;
                    }
                    proof {
                        assert forall|x: Seq<char>| #[trigger]
                            self.dependencies@[self.dep_keys.deep_view()[i as int]].deep_view().contains(
                                x,
                            ) implies uni.deep_view().contains(x) by {
                            let lv = lst.deep_view();
                            let jj2 = choose|jj2: int| 0 <= jj2 < lv.len() && lv[jj2] == x;
                            assert(uni.deep_view().contains(lv[jj2]));
                        }
                    }
                },
                None => {
                    proof {
                        assert(self.dep_keys.deep_view().contains(
                            self.dep_keys.deep_view()[i as int],
                        ));
                        assert(false);
                    }
                },
            }
            i = i + 1;
        }
        proof {
            assert forall|k: Seq<char>, x: Seq<char>|
                self.dependencies@.dom().contains(k)
                    && #[trigger] self.dependencies@[k].deep_view().contains(
                    x,
                ) implies uni.deep_view().contains(x) by {
                let kv = self.dep_keys.deep_view();
                assert(kv.contains(k));
                let jj = choose|jj: int| 0 <= jj < kv.len() && kv[jj] == k;
                assert(self.dependencies@[kv[jj]].deep_view().contains(x));
            }
        }
        uni
    }

    /// Appends every not-yet-listed successor of the id at `acc[idx]`.
    #[verifier::loop_isolation(false)]
    #[verifier::rlimit(30)]
    fn absorb_successors(&self, acc: &mut Vec<TaskId>, idx: usize, uni: &Vec<TaskId>, starts: Ghost<Seq<Seq<char>>>)
        requires
            self.wf(),
            idx < old(acc).len(),
            old(acc).deep_view().no_duplicates(),
            old(acc).deep_view().len() <= uni.deep_view().len(),
            forall|k: Seq<char>| #[trigger]
                old(acc).deep_view().contains(k) ==> uni.deep_view().contains(k),
            forall|k: Seq<char>| #[trigger]
                old(acc).deep_view().contains(k) ==> reaches_from_any(*self, starts@, k),
            forall|k: Seq<char>, x: Seq<char>|
                self.dependencies@.dom().contains(k)
                    && #[trigger] self.dependencies@[k].deep_view().contains(x)
                    ==> uni.deep_view().contains(x),
        ensures
            old(acc).deep_view().is_prefix_of(final(acc).deep_view()),
            final(acc).deep_view().no_duplicates(),
            final(acc).deep_view().len() <= uni.deep_view().len(),
            forall|k: Seq<char>| #[trigger]
                final(acc).deep_view().contains(k) ==> uni.deep_view().contains(k),
            forall|k: Seq<char>| #[trigger]
                final(acc).deep_view().contains(k) ==> reaches_from_any(*self, starts@, k),
            forall|y: Seq<char>| #[trigger]
                self.deps_of(old(acc).deep_view()[idx as int]).contains(y)
                    ==> final(acc).deep_view().contains(y),
    {
        let cur = acc[idx].clone();
        proof {
            assert(acc.deep_view()[idx as int] == cur@);
            assert(acc.deep_view().contains(cur@));
        }
        match self.dependencies.get(cur.0.as_str()) {
            Some(lst) => {
                let mut j: usize = 0;
                while j < lst.len()
                    invariant
                        j <= lst.len(),
                        old(acc).deep_view().is_prefix_of(acc.deep_view()),
                        acc.deep_view().no_duplicates(),
                        acc.deep_view().len() <= uni.deep_view().len(),
                        forall|k: Seq<char>| #[trigger]
                            acc.deep_view().contains(k) ==> uni.deep_view().contains(k),
                        forall|k: Seq<char>| #[trigger]
                            acc.deep_view().contains(k) ==> reaches_from_any(*self, starts@, k),
                        forall|jj2: int|
                            0 <= jj2 < j ==> acc.deep_view().contains(
                                #[trigger] lst.deep_view()[jj2],
                            ),
                    decreases lst.len() - j,
                {
                    if !contains_id(acc, &lst[j]) {
                        proof {
                            let y = lst.deep_view()[j as int];
                            assert(self.deps_of(cur@).contains(y));
                            assert(edge(*self, cur@, y));
                            let d = choose|d: Seq<char>|
                                starts@.contains(d) && reaches(*self, d, cur@);
                            lemma_reaches_step(*self, d, cur@, y);
                            assert(reaches_from_any(*self, starts@, y));
                        }
                        push_id(acc, lst[j].clone());
                        proof {
                            acc.deep_view().unique_seq_to_set();
                            lemma_len_subset(acc.deep_view().to_set(), uni.deep_view().to_set());
                            uni.deep_view().lemma_cardinality_of_set();
                            assert(old(acc).deep_view().is_prefix_of(acc.deep_view()));
                        }
                    }
                    j = j + 1;
                }
                proof {
                    assert forall|y: Seq<char>| #[trigger]
                        self.deps_of(old(acc).deep_view()[idx as int]).contains(
                            y,
                        ) implies acc.deep_view().contains(y) by {
                        let lv = lst.deep_view();
                        let jj2 = choose|jj2: int| 0 <= jj2 < lv.len() && lv[jj2] == y;
                        assert(acc.deep_view().contains(lv[jj2]));
                    }
                }
            },
            None => {
                proof {
                    assert(self.deps_of(cur@) =~= Set::empty());
                    assert(acc.deep_view().is_prefix_of(acc.deep_view()));
                }
            },
        }
    }

    /// Every id reachable from `starts` by following forward edges,
    /// computed by saturating a worklist.
    #[verifier::loop_isolation(false)]
    #[verifier::rlimit(30)]
    fn reachable_from(&self, starts: &Vec<TaskId>) -> (r: Vec<TaskId>)
        requires
            self.wf(),
        ensures
            r.deep_view().no_duplicates(),
            forall|k: Seq<char>| #[trigger]
                r.deep_view().contains(k) <==> reaches_from_any(*self, starts.deep_view(), k),
    {
        let uni = self.edge_universe(starts);
        let mut acc = dedup_ids(starts);
        proof {
            assert forall|k: Seq<char>| #[trigger]
                acc.deep_view().contains(k) implies reaches_from_any(
                *self,
                starts.deep_view(),
                k,
            ) by {
                lemma_reaches_self(*self, k);
            }
            acc.deep_view().unique_seq_to_set();
            lemma_len_subset(acc.deep_view().to_set(), uni.deep_view().to_set());
            uni.deep_view().lemma_cardinality_of_set();
        }
        let mut idx: usize = 0;
        while idx < acc.len()
            invariant
                idx <= acc.len(),
                acc.deep_view().no_duplicates(),
                acc.deep_view().len() <= uni.deep_view().len(),
                forall|k: Seq<char>| #[trigger]
                    acc.deep_view().contains(k) ==> uni.deep_view().contains(k),
                forall|k: Seq<char>| #[trigger]
                    acc.deep_view().contains(k) ==> reaches_from_any(*self, starts.deep_view(), k),
                forall|d: Seq<char>| #[trigger]
                    starts.deep_view().contains(d) ==> acc.deep_view().contains(d),
                forall|jj: int, y: Seq<char>|
                    0 <= jj < idx && #[trigger] self.deps_of(acc.deep_view()[jj]).contains(y)
                        ==> acc.deep_view().contains(y),
            decreases uni.deep_view().len() - idx,
        {
            let ghost pre = acc.deep_view();
            self.absorb_successors(&mut acc, idx, &uni, Ghost(starts.deep_view()));
            proof {
                lemma_prefix_facts(pre, acc.deep_view());
                assert forall|jj: int, y: Seq<char>|
                    0 <= jj < idx + 1 && #[trigger] self.deps_of(acc.deep_view()[jj]).contains(y)
                        implies acc.deep_view().contains(y) by {
                    assert(acc.deep_view()[jj] == pre[jj]);
                    if jj < idx {
                        assert(self.deps_of(pre[jj]).contains(y));
                        assert(pre.contains(y));
                    } else {
                        assert(self.deps_of(pre[idx as int]).contains(y));
                    }
                }
            }
            idx = idx + 1;
        }
        proof {
            let accv = acc.deep_view();
            assert forall|x: Seq<char>, y: Seq<char>|
                accv.contains(x) && #[trigger] edge(*self, x, y) implies accv.contains(y) by {
                let jj = choose|jj: int| 0 <= jj < accv.len() && accv[jj] == x;
                assert(self.deps_of(accv[jj]).contains(y));
            }
            assert forall|k: Seq<char>|
                reaches_from_any(*self, starts.deep_view(), k) implies #[trigger] accv.contains(
                k,
            ) by {
                let d = choose|d: Seq<char>|
                    starts.deep_view().contains(d) && reaches(*self, d, k);
                let p = choose|p: Seq<Seq<char>>|
                    is_dep_path(*self, p) && p.first() == d && p.last() == k;
                assert(accv.contains(d));
                lemma_closed_set_reach(*self, accv, p);
            }
        }
        acc
    }
}

impl DependencyGraph {
    /// Records `task_id -> d` for every `d` in `dependencies`, in both
    /// adjacency maps. The caller has already ruled cycles out.
    #[verifier::loop_isolation(false)]
    #[verifier::rlimit(50)]
    fn insert_edges(&mut self, task_id: TaskId, dependencies: Vec<TaskId>)
        requires
            old(self).wf(),
        ensures
            final(self).wf(),
            forall|k: Seq<char>|
                k != task_id@ ==> #[trigger] final(self).deps_of(k) == old(self).deps_of(k),
            final(self).deps_of(task_id@) == old(self).deps_of(task_id@)
                + dependencies.deep_view().to_set(),
            forall|k: Seq<char>| #[trigger]
                final(self).rents_of(k) == if dependencies.deep_view().contains(k) {
                    old(self).rents_of(k).insert(task_id@)
                } else {
                    old(self).rents_of(k)
                },
    {
        let ghost depv = dependencies.deep_view();
        // Merge the new dependencies into the forward entry, dropping
        // duplicates.
        let mut cur: Vec<TaskId>;
        match self.dependencies.get(task_id.0.as_str()) {
            Some(v) => {
                cur = clone_ids(v);
            },
            None => {
                cur = Vec::new();
                proof {
                    assert(cur.deep_view() =~= Seq::<Seq<char>>::empty());
                }
            },
        }
        proof {
            assert forall|k: Seq<char>| #[trigger]
                cur.deep_view().contains(k) == old(self).deps_of(task_id@).contains(k) by {}
        }
        let mut j: usize = 0;
        while j < dependencies.len()
            invariant
                j <= dependencies.len(),
                cur.deep_view().no_duplicates(),
                forall|k: Seq<char>| #[trigger]
                    cur.deep_view().contains(k) <==> old(self).deps_of(task_id@).contains(k)
                        || depv.subrange(0, j as int).contains(k),
            decreases dependencies.len() - j,
        {
            proof {
                assert(depv.subrange(0, j as int + 1) =~= depv.subrange(0, j as int).push(
                    depv[j as int],
                ));
            }
            if !contains_id(&cur, &dependencies[j]) {
                push_id(&mut cur, dependencies[j].clone());
            }
            j = j + 1;
        }
        proof {
            assert(depv.subrange(0, depv.len() as int) =~= depv);
        }
        self.dependencies.insert(task_id.0.clone(), cur);
        if !contains_id(&self.dep_keys, &task_id) {
            push_id(&mut self.dep_keys, task_id.clone());
        }
        proof {
            assert(self.dep_keys.deep_view().contains(task_id@));
            assert forall|k: Seq<char>| #[trigger]
                self.dependencies@.dom().contains(k)
                    <==> self.dep_keys.deep_view().contains(k) by {}
            assert forall|k: Seq<char>|
                k != task_id@ implies #[trigger] self.deps_of(k) == old(self).deps_of(k) by {}
            assert(self.deps_of(task_id@) =~= old(self).deps_of(task_id@) + depv.to_set());
        }
        let ghost mid = *self;
        // Mirror each new edge in the reverse map.
        let mut j: usize = 0;
        while j < dependencies.len()
            invariant
                j <= dependencies.len(),
                self.dependencies@ == mid.dependencies@,
                self.dep_keys.deep_view() == mid.dep_keys.deep_view(),
                forall|k: Seq<char>| #[trigger]
                    self.dependents@.dom().contains(k)
                        ==> self.dependents@[k].deep_view().no_duplicates(),
                forall|k: Seq<char>| #[trigger]
                    self.rents_of(k) == if depv.subrange(0, j as int).contains(k) {
                        old(self).rents_of(k).insert(task_id@)
                    } else {
                        old(self).rents_of(k)
                    },
            decreases dependencies.len() - j,
        {
            let ghost pre_iter = *self;
            let d = dependencies[j].clone();
            let mut rl: Vec<TaskId>;
            match self.dependents.get(d.0.as_str()) {
                Some(v) => {
                    rl = clone_ids(v);
                },
                None => {
                    rl = Vec::new();
                    proof {
                        assert(rl.deep_view() =~= Seq::<Seq<char>>::empty());
                    }
                },
            }
            proof {
                assert forall|k: Seq<char>| #[trigger]
                    rl.deep_view().contains(k) == pre_iter.rents_of(d@).contains(k) by {}
            }
            if !contains_id(&rl, &task_id) {
                push_id(&mut rl, task_id.clone());
            }
            let ghost rlv = rl.deep_view();
            proof {
                assert forall|k: Seq<char>| #[trigger]
                    rlv.contains(k) <==> pre_iter.rents_of(d@).contains(k) || k == task_id@ by {}
            }
            self.dependents.insert(d.0.clone(), rl);
            proof {
                assert(depv.subrange(0, j as int + 1) =~= depv.subrange(0, j as int).push(
                    depv[j as int],
                ));
                assert(depv.subrange(0, j as int + 1).contains(d@));
                assert forall|k: Seq<char>| #[trigger]
                    self.rents_of(k) == if depv.subrange(0, j as int + 1).contains(k) {
                        old(self).rents_of(k).insert(task_id@)
                    } else {
                        old(self).rents_of(k)
                    } by {
                    if k == d@ {
                        assert(self.dependents@.dom().contains(d@));
                        assert(self.rents_of(d@) == rlv.to_set());
                        if depv.subrange(0, j as int).contains(d@) {
                            assert(pre_iter.rents_of(d@) == old(self).rents_of(d@).insert(
                                task_id@,
                            ));
                        } else {
                            assert(pre_iter.rents_of(d@) == old(self).rents_of(d@));
                        }
                        assert(self.rents_of(d@) =~= old(self).rents_of(d@).insert(task_id@));
                    } else {
                        assert(self.dependents@.dom().contains(k)
                            == pre_iter.dependents@.dom().contains(k));
                        if pre_iter.dependents@.dom().contains(k) {
                            assert(self.dependents@[k] == pre_iter.dependents@[k]);
                        }
                        assert(self.rents_of(k) == pre_iter.rents_of(k));
                        assert(depv.subrange(0, j as int + 1).contains(k) == depv.subrange(
                            0,
                            j as int,
                        ).contains(k));
                    }
                }
            }
            j = j + 1;
        }
        proof {
            assert(depv.subrange(0, depv.len() as int) =~= depv);
            assert forall|a: Seq<char>, b: Seq<char>| #[trigger]
                self.deps_of(a).contains(b) implies #[trigger] self.rents_of(b).contains(a) by {
                if a == task_id@ {
                    if depv.contains(b) {
                    } else {
                        assert(old(self).deps_of(a).contains(b));
                        assert(old(self).rents_of(b).contains(a));
                    }
                } else {
                    assert(old(self).deps_of(a).contains(b));
                    assert(old(self).rents_of(b).contains(a));
                }
            }
            assert forall|a: Seq<char>, b: Seq<char>| #[trigger]
                self.rents_of(b).contains(a) implies #[trigger] self.deps_of(a).contains(b) by {
                if depv.contains(b) {
                    if a == task_id@ {
                        assert(self.deps_of(task_id@).contains(b));
                    } else {
                        assert(old(self).rents_of(b).contains(a));
                        assert(old(self).deps_of(a).contains(b));
                    }
                } else {
                    assert(old(self).rents_of(b).contains(a));
                    assert(old(self).deps_of(a).contains(b));
                }
            }
        }
    }

    /// Deletes `task_id`'s mark from the reverse list of every id in
    /// `dlist`.
    #[verifier::loop_isolation(false)]
    #[verifier::rlimit(50)]
    fn scrub_dependents(&mut self, dlist: &Vec<TaskId>, task_id: &TaskId)
        requires
            forall|k: Seq<char>| #[trigger]
                old(self).dependents@.dom().contains(k)
                    ==> old(self).dependents@[k].deep_view().no_duplicates(),
        ensures
            final(self).dependencies@ == old(self).dependencies@,
            final(self).dep_keys == old(self).dep_keys,
            forall|k: Seq<char>| #[trigger]
                final(self).dependents@.dom().contains(k)
                    ==> final(self).dependents@[k].deep_view().no_duplicates(),
            forall|k: Seq<char>| #[trigger]
                final(self).rents_of(k) == if dlist.deep_view().contains(k) {
                    old(self).rents_of(k).remove(task_id@)
                } else {
                    old(self).rents_of(k)
                },
    {
        let ghost dv = dlist.deep_view();
        let mut j: usize = 0;
        while j < dlist.len()
            invariant
                j <= dlist.len(),
                self.dependencies@ == old(self).dependencies@,
                self.dep_keys == old(self).dep_keys,
                forall|k: Seq<char>| #[trigger]
                    self.dependents@.dom().contains(k)
                        ==> self.dependents@[k].deep_view().no_duplicates(),
                forall|k: Seq<char>| #[trigger]
                    self.rents_of(k) == if dv.subrange(0, j as int).contains(k) {
                        old(self).rents_of(k).remove(task_id@)
                    } else {
                        old(self).rents_of(k)
                    },
            decreases dlist.len() - j,
        {
            let ghost pre_iter = *self;
            let d = dlist[j].clone();
            match self.dependents.get(d.0.as_str()) {
                Some(v) => {
                    let mut rl = clone_ids(v);
                    proof {
                        assert(rl.deep_view() == pre_iter.dependents@[d@].deep_view());
                    }
                    remove_id(&mut rl, task_id);
                    let ghost rlv = rl.deep_view();
                    proof {
                        assert(rlv.to_set() =~= pre_iter.rents_of(d@).remove(task_id@));
                    }
                    self.dependents.insert(d.0.clone(), rl);
                },
                None => {
                    proof {
                        assert(pre_iter.rents_of(d@) =~= Set::<Seq<char>>::empty());
                        assert(pre_iter.rents_of(d@).remove(task_id@) =~= pre_iter.rents_of(d@));
                    }
                },
            }
            proof {
                assert(dv.subrange(0, j as int + 1) =~= dv.subrange(0, j as int).push(
                    dv[j as int],
                ));
                assert(dv.subrange(0, j as int + 1).contains(d@));
                assert forall|k: Seq<char>| #[trigger]
                    self.rents_of(k) == if dv.subrange(0, j as int + 1).contains(k) {
                        old(self).rents_of(k).remove(task_id@)
                    } else {
                        old(self).rents_of(k)
                    } by {
                    if k == d@ {
                        if dv.subrange(0, j as int).contains(d@) {
                            assert(pre_iter.rents_of(d@) == old(self).rents_of(d@).remove(
                                task_id@,
                            ));
                        }
                        assert(self.rents_of(d@) =~= old(self).rents_of(d@).remove(task_id@));
                    } else {
                        assert(self.dependents@.dom().contains(k)
                            == pre_iter.dependents@.dom().contains(k));
                        if pre_iter.dependents@.dom().contains(k) {
                            assert(self.dependents@[k] == pre_iter.dependents@[k]);
                        }
                        assert(self.rents_of(k) == pre_iter.rents_of(k));
                        assert(dv.subrange(0, j as int + 1).contains(k) == dv.subrange(
                            0,
                            j as int,
                        ).contains(k));
                    }
                }
            }
            j = j + 1;
        }
        proof {
            assert(dv.subrange(0, dv.len() as int) =~= dv);
        }
    }

    /// Deletes `task_id`'s mark from the forward list of every id in
    /// `rlist`.
    #[verifier::loop_isolation(false)]
    #[verifier::rlimit(50)]
    fn scrub_dependencies(&mut self, rlist: &Vec<TaskId>, task_id: &TaskId)
        requires
            forall|k: Seq<char>| #[trigger]
                old(self).dependencies@.dom().contains(k)
                    ==> old(self).dependencies@[k].deep_view().no_duplicates(),
        ensures
            final(self).dependents@ == old(self).dependents@,
            final(self).dep_keys == old(self).dep_keys,
            final(self).dependencies@.dom() == old(self).dependencies@.dom(),
            forall|k: Seq<char>| #[trigger]
                final(self).dependencies@.dom().contains(k)
                    ==> final(self).dependencies@[k].deep_view().no_duplicates(),
            forall|k: Seq<char>| #[trigger]
                final(self).deps_of(k) == if rlist.deep_view().contains(k) {
                    old(self).deps_of(k).remove(task_id@)
                } else {
                    old(self).deps_of(k)
                },
    {
        let ghost rv = rlist.deep_view();
        let mut j: usize = 0;
        while j < rlist.len()
            invariant
                j <= rlist.len(),
                self.dependents@ == old(self).dependents@,
                self.dep_keys == old(self).dep_keys,
                self.dependencies@.dom() == old(self).dependencies@.dom(),
                forall|k: Seq<char>| #[trigger]
                    self.dependencies@.dom().contains(k)
                        ==> self.dependencies@[k].deep_view().no_duplicates(),
                forall|k: Seq<char>| #[trigger]
                    self.deps_of(k) == if rv.subrange(0, j as int).contains(k) {
                        old(self).deps_of(k).remove(task_id@)
                    } else {
                        old(self).deps_of(k)
                    },
            decreases rlist.len() - j,
        {
            let ghost pre_iter = *self;
            let t = rlist[j].clone();
            match self.dependencies.get(t.0.as_str()) {
                Some(v) => {
                    let mut fl = clone_ids(v);
                    proof {
                        assert(fl.deep_view() == pre_iter.dependencies@[t@].deep_view());
                    }
                    remove_id(&mut fl, task_id);
                    let ghost flv = fl.deep_view();
                    proof {
                        assert(flv.to_set() =~= pre_iter.deps_of(t@).remove(task_id@));
                    }
                    self.dependencies.insert(t.0.clone(), fl);
                    proof {
                        assert(self.dependencies@.dom() =~= pre_iter.dependencies@.dom());
                    }
                },
                None => {
                    proof {
                        assert(pre_iter.deps_of(t@) =~= Set::<Seq<char>>::empty());
                        assert(pre_iter.deps_of(t@).remove(task_id@) =~= pre_iter.deps_of(t@));
                    }
                },
            }
            proof {
                assert(rv.subrange(0, j as int + 1) =~= rv.subrange(0, j as int).push(
                    rv[j as int],
                ));
                assert(rv.subrange(0, j as int + 1).contains(t@));
                assert forall|k: Seq<char>| #[trigger]
                    self.deps_of(k) == if rv.subrange(0, j as int + 1).contains(k) {
                        old(self).deps_of(k).remove(task_id@)
                    } else {
                        old(self).deps_of(k)
                    } by {
                    if k == t@ {
                        if rv.subrange(0, j as int).contains(t@) {
                            assert(pre_iter.deps_of(t@) == old(self).deps_of(t@).remove(task_id@));
                        }
                        assert(self.deps_of(t@) =~= old(self).deps_of(t@).remove(task_id@));
                    } else {
                        assert(self.dependencies@.dom().contains(k)
                            == pre_iter.dependencies@.dom().contains(k));
                        if pre_iter.dependencies@.dom().contains(k) {
                            assert(self.dependencies@[k] == pre_iter.dependencies@[k]);
                        }
                        assert(self.deps_of(k) == pre_iter.deps_of(k));
                        assert(rv.subrange(0, j as int + 1).contains(k) == rv.subrange(
                            0,
                            j as int,
                        ).contains(k));
                    }
                }
            }
            j = j + 1;
        }
        proof {
            assert(rv.subrange(0, rv.len() as int) =~= rv);
        }
    }

    /// Unregisters `task_id` and removes every edge that touches it, in
    /// both directions: its own edge lists disappear, and its id is dropped
    /// from every other node's lists.
    #[verifier::loop_isolation(false)]
    #[verifier::rlimit(60)]
    pub fn remove_task(&mut self, task_id: &TaskId) -> (r: Result<(), StateError>)
        requires
            old(self).wf(),
        ensures
            final(self).wf(),
            r is Ok,
            forall|k: Seq<char>| #[trigger]
                final(self).deps_of(k) == if k == task_id@ {
                    Set::<Seq<char>>::empty()
                } else {
                    old(self).deps_of(k).remove(task_id@)
                },
            forall|k: Seq<char>| #[trigger]
                final(self).rents_of(k) == if k == task_id@ {
                    Set::<Seq<char>>::empty()
                } else {
                    old(self).rents_of(k).remove(task_id@)
                },
    {
        // Drop the forward entry of `task_id` itself.
        let dlist: Vec<TaskId> = match self.dependencies.get(task_id.0.as_str()) {
            Some(v) => clone_ids(v),
            None => Vec::new(),
        };
        proof {
            if !old(self).dependencies@.dom().contains(task_id@) {
                assert(dlist.deep_view() =~= Seq::<Seq<char>>::empty());
            }
            assert forall|k: Seq<char>| #[trigger]
                dlist.deep_view().contains(k) == old(self).deps_of(task_id@).contains(k) by {}
        }
        self.dependencies.remove(task_id.0.as_str());
        remove_id(&mut self.dep_keys, task_id);
        // Unhook `task_id` from the reverse list of each of its
        // dependencies.
        self.scrub_dependents(&dlist, task_id);
        let ghost g2 = *self;
        // Drop the reverse entry of `task_id` itself.
        let rlist: Vec<TaskId> = match self.dependents.get(task_id.0.as_str()) {
            Some(v) => clone_ids(v),
            None => Vec::new(),
        };
        proof {
            if !g2.dependents@.dom().contains(task_id@) {
                assert(rlist.deep_view() =~= Seq::<Seq<char>>::empty());
            }
            assert forall|k: Seq<char>| #[trigger]
                rlist.deep_view().contains(k) == g2.rents_of(task_id@).contains(k) by {}
        }
        self.dependents.remove(task_id.0.as_str());
        let ghost g3 = *self;
        // Unhook `task_id` from the forward list of each of its dependents.
        self.scrub_dependencies(&rlist, task_id);
        proof {
            let id = task_id@;
            let g0 = *old(self);
            // The forward sets end up with `task_id` struck everywhere.
            assert forall|k: Seq<char>| #[trigger]
                self.deps_of(k) == if k == id {
                    Set::<Seq<char>>::empty()
                } else {
                    g0.deps_of(k).remove(id)
                } by {
                if k == id {
                    assert(g3.deps_of(id) =~= Set::<Seq<char>>::empty());
                    assert(self.deps_of(id) =~= Set::<Seq<char>>::empty());
                } else {
                    assert(g3.deps_of(k) == g0.deps_of(k));
                    if rlist.deep_view().contains(k) {
                        assert(self.deps_of(k) == g0.deps_of(k).remove(id));
                    } else {
                        assert(!g2.rents_of(id).contains(k));
                        assert(!g0.rents_of(id).contains(k) || id == k);
                        assert(!g0.deps_of(k).contains(id));
                        assert(g0.deps_of(k).remove(id) =~= g0.deps_of(k));
                    }
                }
            }
            // So do the reverse sets.
            assert forall|k: Seq<char>| #[trigger]
                self.rents_of(k) == if k == id {
                    Set::<Seq<char>>::empty()
                } else {
                    g0.rents_of(k).remove(id)
                } by {
                assert(self.rents_of(k) == g3.rents_of(k));
                if k == id {
                    assert(g3.rents_of(id) =~= Set::<Seq<char>>::empty());
                } else {
                    if dlist.deep_view().contains(k) {
                        assert(g2.rents_of(k) == g0.rents_of(k).remove(id));
                    } else {
                        assert(!g0.deps_of(id).contains(k));
                        assert(!g0.rents_of(k).contains(id));
                        assert(g0.rents_of(k).remove(id) =~= g0.rents_of(k));
                        assert(g2.rents_of(k) == g0.rents_of(k));
                    }
                    assert(g3.rents_of(k) == g2.rents_of(k));
                }
            }
            // Well-formedness: the key list still mirrors the forward
            // domain, and the two maps mirror each other edge for edge.
            assert forall|k: Seq<char>| #[trigger]
                self.dependencies@.dom().contains(k)
                    <==> self.dep_keys.deep_view().contains(k) by {}
            assert forall|a: Seq<char>, b: Seq<char>| #[trigger]
                self.deps_of(a).contains(b) implies #[trigger] self.rents_of(b).contains(a) by {
                assert(g0.deps_of(a).contains(b));
                assert(g0.rents_of(b).contains(a));
            }
            assert forall|a: Seq<char>, b: Seq<char>| #[trigger]
                self.rents_of(b).contains(a) implies #[trigger] self.deps_of(a).contains(b) by {
                assert(g0.rents_of(b).contains(a));
                assert(g0.deps_of(a).contains(b));
            }
        }
        Ok(())
    }

    /// A full-graph cycle check, independent of the insertion-time
    /// screening: is any id reachable from one of its own dependencies?
    #[verifier::loop_isolation(false)]
    #[verifier::rlimit(30)]
    pub fn has_cycle(&self) -> (r: bool)
        requires
            self.wf(),
        ensures
            r == has_cycle_spec(*self),
    {
        let mut i: usize = 0;
        while i < self.dep_keys.len()
            invariant
                i <= self.dep_keys.len(),
                forall|jj: int|
                    0 <= jj < i ==> !(exists|d: Seq<char>|
                        self.deps_of(#[trigger] self.dep_keys.deep_view()[jj]).contains(d)
                            && reaches(*self, d, self.dep_keys.deep_view()[jj])),
            decreases self.dep_keys.len() - i,
        {
            let k = self.dep_keys[i].clone();
            let deps = match self.get_dependencies(&k) {
                Ok(v) => v,
                Err(_) => Vec::new(),
            };
            let closure = self.reachable_from(&deps);
            if contains_id(&closure, &k) {
                proof {
                    assert(reaches_from_any(*self, deps.deep_view(), k@));
                    let d = choose|d: Seq<char>|
                        deps.deep_view().contains(d) && reaches(*self, d, k@);
                    assert(deps.deep_view().to_set().contains(d));
                    assert(self.deps_of(k@).contains(d));
                    assert(edge(*self, k@, d) && reaches(*self, d, k@));
                    assert(has_cycle_spec(*self));
                }
                return true;
            }
            proof {
                assert(k@ == self.dep_keys.deep_view()[i as int]);
                assert forall|d: Seq<char>|
                    self.deps_of(k@).contains(d) implies !reaches(*self, d, k@) by {
                    assert(deps.deep_view().to_set().contains(d));
                    assert(deps.deep_view().contains(d));
                    assert(!reaches_from_any(*self, deps.deep_view(), k@));
                }
            }
            i = i + 1;
        }
        proof {
            assert forall|k: Seq<char>, d: Seq<char>|
                !(edge(*self, k, d) && reaches(*self, d, k)) by {
                if edge(*self, k, d) {
                    assert(self.dependencies@.dom().contains(k));
                    assert(self.dep_keys.deep_view().contains(k));
                    let jj = choose|jj: int|
                        0 <= jj < self.dep_keys.deep_view().len() && self.dep_keys.deep_view()[jj]
                            == k;
                }
            }
        }
        false
    }

    /// Registers `task_id` as depending on each id in `dependencies`,
    /// refusing the insertion if any new edge would close a cycle (an id
    /// that transitively reaches `task_id`, or `task_id` itself). On
    /// rejection the graph is left exactly as it was.
    #[verifier::loop_isolation(false)]
    pub fn add_task(&mut self, task_id: TaskId, dependencies: Vec<TaskId>) -> (r: Result<
        (),
        StateError,
    >)
        requires
            old(self).wf(),
        ensures
            final(self).wf(),
            match r {
                Ok(()) => {
                    &&& !(exists|d: Seq<char>|
                        dependencies.deep_view().contains(d) && reaches(*old(self), d, task_id@))
                    &&& forall|k: Seq<char>|
                        k != task_id@ ==> #[trigger] final(self).deps_of(k) == old(self).deps_of(k)
                    &&& final(self).deps_of(task_id@) == old(self).deps_of(task_id@)
                        + dependencies.deep_view().to_set()
                    &&& forall|k: Seq<char>| #[trigger]
                        final(self).rents_of(k) == if dependencies.deep_view().contains(k) {
                            old(self).rents_of(k).insert(task_id@)
                        } else {
                            old(self).rents_of(k)
                        }
                },
                Err(e) => {
                    &&& e matches StateError::CircularDependency(s) && s@ == task_id@
                    &&& exists|d: Seq<char>|
                        dependencies.deep_view().contains(d) && reaches(*old(self), d, task_id@)
                    &&& forall|k: Seq<char>| #[trigger] final(self).deps_of(k) == old(self).deps_of(
                        k,
                    )
                    &&& forall|k: Seq<char>| #[trigger] final(self).rents_of(k) == old(
                        self,
                    ).rents_of(k)
                },
            },
    {
        let closure = self.reachable_from(&dependencies);
        if contains_id(&closure, &task_id) {
            return Err(StateError::CircularDependency(task_id.as_string()));
        }
        self.insert_edges(task_id, dependencies);
        Ok(())
    }
}

/// A prefix keeps its members and its indexed entries.
proof fn lemma_prefix_facts(pre: Seq<Seq<char>>, post: Seq<Seq<char>>)
    requires
        pre.is_prefix_of(post),
    ensures
        forall|k: Seq<char>| #[trigger] pre.contains(k) ==> post.contains(k),
        forall|jj: int| 0 <= jj < pre.len() ==> pre[jj] == #[trigger] post[jj],
{
    assert forall|k: Seq<char>| #[trigger] pre.contains(k) implies post.contains(k) by {
        let jj = choose|jj: int| 0 <= jj < pre.len() && pre[jj] == k;
        assert(post[jj] == k);
    }
}

/// Copies a list of ids, dropping duplicates.
#[verifier::loop_isolation(false)]
fn dedup_ids(starts: &Vec<TaskId>) -> (acc: Vec<TaskId>)
    ensures
        acc.deep_view().no_duplicates(),
        forall|k: Seq<char>| #[trigger]
            acc.deep_view().contains(k) <==> starts.deep_view().contains(k),
{
    let mut acc: Vec<TaskId> = Vec::new();
    let mut s: usize = 0;
    while s < starts.len()
        invariant
            s <= starts.len(),
            acc.deep_view().no_duplicates(),
            forall|k: Seq<char>| #[trigger]
                acc.deep_view().contains(k) ==> starts.deep_view().contains(k),
            forall|jj: int|
                0 <= jj < s ==> acc.deep_view().contains(#[trigger] starts.deep_view()[jj]),
        decreases starts.len() - s,
    {
        if !contains_id(&acc, &starts[s]) {
            push_id(&mut acc, starts[s].clone());
            proof {
                assert(starts.deep_view().contains(starts.deep_view()[s as int]));
            }
        }
        s = s + 1;
    }
    proof {
        assert forall|k: Seq<char>| #[trigger]
            starts.deep_view().contains(k) implies acc.deep_view().contains(k) by {
            let jj = choose|jj: int|
                0 <= jj < starts.deep_view().len() && starts.deep_view()[jj] == k;
        }
    }
    acc
}

/// Appending one id to a list appends its text to the list's view.
pub(crate) fn push_id(v: &mut Vec<TaskId>, id: TaskId)
    ensures
        final(v).deep_view() == old(v).deep_view().push(id@),
{
    let ghost gid = id@;
    v.push(id);
    proof {
        assert(v.deep_view() =~= old(v).deep_view().push(gid));
    }
}

/// Removes the entry whose text equals `id`, if any; order of the rest is
/// preserved but not promised.
#[verifier::loop_isolation(false)]
pub(crate) fn remove_id(v: &mut Vec<TaskId>, id: &TaskId)
    requires
        old(v).deep_view().no_duplicates(),
    ensures
        final(v).deep_view().no_duplicates(),
        !final(v).deep_view().contains(id@),
        forall|k: Seq<char>|
            k != id@ ==> #[trigger] final(v).deep_view().contains(k) == old(v).deep_view().contains(
                k,
            ),
        final(v).deep_view().to_set() == old(v).deep_view().to_set().remove(id@),
{
    let ghost old_dv = old(v).deep_view();
    let mut i: usize = 0;
    while i < v.len()
        invariant
            i <= v.len(),
            v.deep_view() == old_dv,
            old_dv.no_duplicates(),
            forall|j: int| 0 <= j < i ==> old_dv[j] != id@,
        decreases v.len() - i,
    {
        if v[i] == *id {
            proof {
                assert(old_dv[i as int] == id@);
            }
            v.remove(i);
            proof {
                let new_dv = v.deep_view();
                assert(new_dv =~= old_dv.remove(i as int));
                assert forall|j: int| 0 <= j < new_dv.len() implies new_dv[j] != id@ by {
                    if j < i {
                        assert(new_dv[j] == old_dv[j]);
                    } else {
                        assert(new_dv[j] == old_dv[j + 1]);
                    }
                }
                assert(!new_dv.contains(id@));
                assert forall|a: int, b: int|
                    0 <= a < b < new_dv.len() implies new_dv[a] != new_dv[b] by {
                    let a0: int = if a < i { a } else { a + 1 };
                    let b0: int = if b < i { b } else { b + 1 };
                    assert(new_dv[a] == old_dv[a0]);
                    assert(new_dv[b] == old_dv[b0]);
                }
                assert(new_dv.no_duplicates());
                assert forall|k: Seq<char>|
                    k != id@ implies #[trigger] new_dv.contains(k) == old_dv.contains(k) by {
                    if old_dv.contains(k) {
                        let j = choose|j: int| 0 <= j < old_dv.len() && old_dv[j] == k;
                        if j < i {
                            assert(new_dv[j] == k);
                        } else {
                            assert(j != i);
                            assert(new_dv[j - 1] == k);
                        }
                        assert(new_dv.contains(k));
                    }
                    if new_dv.contains(k) {
                        let j = choose|j: int| 0 <= j < new_dv.len() && new_dv[j] == k;
                        if j < i {
                            assert(old_dv[j] == k);
                        } else {
                            assert(old_dv[j + 1] == k);
                        }
                        assert(old_dv.contains(k));
                    }
                }
                assert(new_dv.to_set() =~= old_dv.to_set().remove(id@));
            }
            return ;
        }
        i = i + 1;
    }
    proof {
        assert(!v.deep_view().contains(id@));
        assert(v.deep_view().to_set() =~= old_dv.to_set().remove(id@));
    }
}

/// Does `v` hold an id whose text equals `id`?
pub(crate) fn contains_id(v: &Vec<TaskId>, id: &TaskId) -> (r: bool)
    ensures
        r == v.deep_view().contains(id@),
{
    let mut i: usize = 0;
    while i < v.len()
        invariant
            i <= v.len(),
            forall|j: int| 0 <= j < i ==> v.deep_view()[j] != id@,
        decreases v.len() - i,
    {
        if v[i] == *id {
            proof {
                assert(v.deep_view()[i as int] == id@);
            }
            return true;
        }
        i = i + 1;
    }
    false
}

/// Every id reaches itself, by the one-entry walk.
pub proof fn lemma_reaches_self(g: DependencyGraph, a: Seq<char>)
    ensures
        reaches(g, a, a),
{
    let p = seq![a];
    assert(is_dep_path(g, p));
    assert(p.first() == a && p.last() == a);
}

/// A walk can be extended by one edge at its end.
pub proof fn lemma_reaches_step(g: DependencyGraph, a: Seq<char>, b: Seq<char>, c: Seq<char>)
    requires
        reaches(g, a, b),
        edge(g, b, c),
    ensures
        reaches(g, a, c),
{
    let p = choose|p: Seq<Seq<char>>| is_dep_path(g, p) && p.first() == a && p.last() == b;
    let q = p.push(c);
    assert(is_dep_path(g, q)) by {
        assert forall|i: int| 0 <= i < q.len() - 1 implies edge(g, #[trigger] q[i], q[i + 1]) by {
            if i < p.len() - 1 {
                assert(q[i] == p[i]);
                assert(q[i + 1] == p[i + 1]);
            } else {
                assert(q[i] == p.last());
                assert(q[i + 1] == c);
            }
        }
    }
    assert(q.first() == a && q.last() == c);
}

/// A set that holds the start of a walk and is closed under forward edges
/// holds the end of the walk too.
proof fn lemma_closed_set_reach(g: DependencyGraph, views: Seq<Seq<char>>, p: Seq<Seq<char>>)
    requires
        is_dep_path(g, p),
        views.contains(p.first()),
        forall|x: Seq<char>, y: Seq<char>|
            views.contains(x) && #[trigger] edge(g, x, y) ==> views.contains(y),
    ensures
        views.contains(p.last()),
    decreases p.len(),
{
    if p.len() == 1 {
        assert(p.first() == p.last());
    } else {
        assert(edge(g, p[0], p[1]));
        assert(views.contains(p[1]));
        let q = p.drop_first();
        assert(is_dep_path(g, q)) by {
            assert forall|i: int| 0 <= i < q.len() - 1 implies edge(
                g,
                #[trigger] q[i],
                q[i + 1],
            ) by {
                assert(q[i] == p[i + 1]);
                assert(q[i + 1] == p[i + 2]);
            }
        }
        assert(q.first() == p[1] && q.last() == p.last());
        lemma_closed_set_reach(g, views, q);
    }
}

} // verus!
