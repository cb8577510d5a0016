//! The task record model: identifiers, statuses, metadata and snapshots.

use vstd::prelude::*;

use crate::state::clock::now_millis;

verus! {

/// An opaque task identifier. Equality is value-based on the underlying
/// string, which also serves as the key of the store and the graph.
#[derive(Debug, Eq, Hash)]
pub struct TaskId(pub String);

impl View for TaskId {
    type V = Seq<char>;

    open spec fn view(&self) -> Seq<char> {
        self.0@
    }
}

impl DeepView for TaskId {
    type V = Seq<char>;

    open spec fn deep_view(&self) -> Seq<char> {
        self.0@
    }
}

impl TaskId {
    pub fn new(id: &str) -> (r: Self)
        ensures
            r@ == id@,
    {
        TaskId(id.to_owned())
    }

    /// The identifier as a `String`, in place of `Display`.
    pub fn as_string(&self) -> (r: String)
        ensures
            r@ == self@,
    {
        self.0.clone()
    }
}

impl Clone for TaskId {
    fn clone(&self) -> (r: Self)
        ensures
            r@ == self@,
    {
        TaskId(self.0.clone())
    }
}

impl PartialEq for TaskId {
    fn eq(&self, other: &Self) -> (r: bool) {
        self.0 == other.0
    }
}

impl vstd::std_specs::cmp::PartialEqSpecImpl for TaskId {
    open spec fn obeys_eq_spec() -> bool {
        true
    }

    open spec fn eq_spec(&self, other: &Self) -> bool {
        self@ == other@
    }
}

/// The lifecycle stage of a task. Any status may be set to any other; only
/// the transition into `Completed` is gated on the task's dependencies.
#[derive(Debug, Clone, Copy, PartialEq, Eq, Structural)]
pub enum TaskStatus {
    Pending,
    Running,
    Completed,
    Failed,
    Cancelled,
}

/// The mathematical shape of a `TaskMetadata` value: every string is a
/// sequence of characters.
pub ghost struct TaskMetadataView {
    pub name: Seq<char>,
    pub description: Option<Seq<char>>,
    pub owner: Seq<char>,
    pub dependencies: Seq<Seq<char>>,
    pub estimated_duration: u64,
    pub priority: i32,
    pub tags: Seq<Seq<char>>,
    pub additional_info: Seq<(Seq<char>, Seq<char>)>,
}

impl TaskMetadataView {
    /// The view of freshly constructed, empty metadata.
    pub open spec fn empty() -> TaskMetadataView {
        TaskMetadataView {
            name: Seq::empty(),
            description: None,
            owner: Seq::empty(),
            dependencies: Seq::empty(),
            estimated_duration: 0,
            priority: 0,
            tags: Seq::empty(),
            additional_info: Seq::empty(),
        }
    }
}

/// Descriptive attributes of a task. `dependencies` lists the ids the task
/// depends on; duplicates are tolerated and treated as a set. Durations are
/// measured in milliseconds. `additional_info` holds free-form key/value
/// pairs.
#[derive(Debug)]
pub struct TaskMetadata {
    pub name: String,
    pub description: Option<String>,
    pub owner: String,
    pub dependencies: Vec<TaskId>,
    pub estimated_duration: u64,
    pub priority: i32,
    pub tags: Vec<String>,
    pub additional_info: Vec<(String, String)>,
}

impl View for TaskMetadata {
    type V = TaskMetadataView;

    open spec fn view(&self) -> TaskMetadataView {
        TaskMetadataView {
            name: self.name@,
            description: self.description.deep_view(),
            owner: self.owner@,
            dependencies: self.dependencies.deep_view(),
            estimated_duration: self.estimated_duration,
            priority: self.priority,
            tags: self.tags.deep_view(),
            additional_info: self.additional_info.deep_view(),
        }
    }
}

impl DeepView for TaskMetadata {
    type V = TaskMetadataView;

    open spec fn deep_view(&self) -> TaskMetadataView {
        self@
    }
}

impl Default for TaskMetadata {
    fn default() -> (r: Self)
        ensures
            r@ == TaskMetadataView::empty(),
    {
        let r = TaskMetadata {
            name: String::new(),
            description: None,
            owner: String::new(),
            dependencies: Vec::new(),
            estimated_duration: 0,
            priority: 0,
            tags: Vec::new(),
            additional_info: Vec::new(),
        };
        proof {
            assert(r@.dependencies =~= Seq::<Seq<char>>::empty());
            assert(r@.tags =~= Seq::<Seq<char>>::empty());
            assert(r@.additional_info =~= Seq::<(Seq<char>, Seq<char>)>::empty());
        }
        r
    }
}

impl Clone for TaskMetadata {
    fn clone(&self) -> (r: Self)
        ensures
            r@ == self@,
    {
        TaskMetadata {
            name: self.name.clone(),
            description: clone_opt_string(&self.description),
            owner: self.owner.clone(),
            dependencies: clone_ids(&self.dependencies),
            estimated_duration: self.estimated_duration,
            priority: self.priority,
            tags: clone_strings(&self.tags),
            additional_info: clone_pairs(&self.additional_info),
        }
    }
}

impl PartialEq for TaskMetadata {
    fn eq(&self, other: &Self) -> (r: bool) {
        self.name == other.name && eq_opt_string(&self.description, &other.description)
            && self.owner == other.owner && eq_id_vecs(&self.dependencies, &other.dependencies)
            && self.estimated_duration == other.estimated_duration && self.priority
            == other.priority && eq_string_vecs(&self.tags, &other.tags) && eq_pair_vecs(
            &self.additional_info,
            &other.additional_info,
        )
    }
}

impl vstd::std_specs::cmp::PartialEqSpecImpl for TaskMetadata {
    open spec fn obeys_eq_spec() -> bool {
        true
    }

    open spec fn eq_spec(&self, other: &Self) -> bool {
        self@ == other@
    }
}

/// The mathematical shape of a `TaskState` record.
pub ghost struct TaskStateView {
    pub id: Seq<char>,
    pub status: TaskStatus,
    pub metadata: TaskMetadataView,
    pub created_at: i64,
    pub updated_at: i64,
}

impl TaskStateView {
    /// Timestamps never run backwards within one record.
    pub open spec fn wf(self) -> bool {
        self.updated_at >= self.created_at
    }
}

/// One unit of work: identity, lifecycle status, metadata, and the
/// millisecond timestamps of its creation and last mutation.
#[derive(Debug)]
pub struct TaskState {
    pub id: TaskId,
    pub status: TaskStatus,
    pub metadata: TaskMetadata,
    pub created_at: i64,
    pub updated_at: i64,
}

impl View for TaskState {
    type V = TaskStateView;

    open spec fn view(&self) -> TaskStateView {
        TaskStateView {
            id: self.id@,
            status: self.status,
            metadata: self.metadata@,
            created_at: self.created_at,
            updated_at: self.updated_at,
        }
    }
}

impl DeepView for TaskState {
    type V = TaskStateView;

    open spec fn deep_view(&self) -> TaskStateView {
        self@
    }
}

impl TaskState {
    /// A fresh `Pending` record with empty metadata, stamped with the
    /// current wall-clock time.
    pub fn new(id: TaskId) -> (r: Self)
        ensures
            r@.id == id@,
            r@.status == TaskStatus::Pending,
            r@.metadata == TaskMetadataView::empty(),
            r@.created_at == r@.updated_at,
            r@.wf(),
    {
        let now = now_millis();
        TaskState {
            id,
            status: TaskStatus::Pending,
            metadata: TaskMetadata::default(),
            created_at: now,
            updated_at: now,
        }
    }
}

impl Default for TaskState {
    fn default() -> (r: Self)
        ensures
            r@.id == "default"@,
            r@.status == TaskStatus::Pending,
            r@.metadata == TaskMetadataView::empty(),
            r@.created_at == r@.updated_at,
    {
        let id = TaskId::new("default");
        TaskState::new(id)
    }
}

impl Clone for TaskState {
    fn clone(&self) -> (r: Self)
        ensures
            r@ == self@,
    {
        TaskState {
            id: self.id.clone(),
            status: self.status,
            metadata: self.metadata.clone(),
            created_at: self.created_at,
            updated_at: self.updated_at,
        }
    }
}

impl PartialEq for TaskState {
    fn eq(&self, other: &Self) -> (r: bool) {
        self.id == other.id && self.status == other.status && self.metadata == other.metadata
            && self.created_at == other.created_at && self.updated_at == other.updated_at
    }
}

impl vstd::std_specs::cmp::PartialEqSpecImpl for TaskState {
    open spec fn obeys_eq_spec() -> bool {
        true
    }

    open spec fn eq_spec(&self, other: &Self) -> bool {
        self@ == other@
    }
}

/// A point-in-time copy of the full task map, usable for recovery. The
/// records carry distinct ids whenever the snapshot was taken from a store.
#[derive(Debug)]
pub struct StateSnapshot {
    pub tasks: Vec<TaskState>,
    pub timestamp: i64,
}

impl Clone for StateSnapshot {
    fn clone(&self) -> (r: Self)
        ensures
            r.tasks.deep_view() == self.tasks.deep_view(),
            r.timestamp == self.timestamp,
    {
        StateSnapshot { tasks: clone_tasks(&self.tasks), timestamp: self.timestamp }
    }
}

fn clone_opt_string(v: &Option<String>) -> (r: Option<String>)
    ensures
        r.deep_view() == v.deep_view(),
{
    match v {
        Some(s) => Some(s.clone()),
        None => None,
    }
}

fn eq_opt_string(a: &Option<String>, b: &Option<String>) -> (r: bool)
    ensures
        r == (a.deep_view() == b.deep_view()),
{
    if let Some(x) = a {
        if let Some(y) = b {
            *x == *y
        } else {
            false
        }
    } else {
        b.is_none()
    }
}

fn clone_strings(v: &Vec<String>) -> (r: Vec<String>)
    ensures
        r.deep_view() == v.deep_view(),
{
    let mut r: Vec<String> = Vec::new();
    let mut i: usize = 0;
    while i < v.len()
        invariant
            i <= v.len(),
            r@.len() == i,
            forall|j: int| 0 <= j < i ==> r.deep_view()[j] == v.deep_view()[j],
        decreases v.len() - i,
    {
        r.push(v[i].clone());
        proof {
            assert(r.deep_view()[i as int] == v.deep_view()[i as int]);
        }
        i = i + 1;
    }
    proof {
        assert(r.deep_view() =~= v.deep_view());
    }
    r
}

fn eq_string_vecs(a: &Vec<String>, b: &Vec<String>) -> (r: bool)
    ensures
        r == (a.deep_view() == b.deep_view()),
{
    if a.len() != b.len() {
        proof {
            assert(a.deep_view().len() == a@.len());
            assert(b.deep_view().len() == b@.len());
        }
        return false;
    }
    let mut i: usize = 0;
    while i < a.len()
        invariant
            i <= a.len(),
            a@.len() == b@.len(),
            forall|j: int| 0 <= j < i ==> a.deep_view()[j] == b.deep_view()[j],
        decreases a.len() - i,
    {
        if !(a[i] == b[i]) {
            proof {
                assert(a.deep_view()[i as int] != b.deep_view()[i as int]);
            }
            return false;
        }
        i = i + 1;
    }
    proof {
        assert(a.deep_view() =~= b.deep_view());
    }
    true
}

pub(crate) fn clone_ids(v: &Vec<TaskId>) -> (r: Vec<TaskId>)
    ensures
        r.deep_view() == v.deep_view(),
{
    let mut r: Vec<TaskId> = Vec::new();
    let mut i: usize = 0;
    while i < v.len()
        invariant
            i <= v.len(),
            r@.len() == i,
            forall|j: int| 0 <= j < i ==> r.deep_view()[j] == v.deep_view()[j],
        decreases v.len() - i,
    {
        r.push(v[i].clone());
        proof {
            assert(r.deep_view()[i as int] == v.deep_view()[i as int]);
        }
        i = i + 1;
    }
    proof {
        assert(r.deep_view() =~= v.deep_view());
    }
    r
}

fn eq_id_vecs(a: &Vec<TaskId>, b: &Vec<TaskId>) -> (r: bool)
    ensures
        r == (a.deep_view() == b.deep_view()),
{
    if a.len() != b.len() {
        proof {
            assert(a.deep_view().len() == a@.len());
            assert(b.deep_view().len() == b@.len());
        }
        return false;
    }
    let mut i: usize = 0;
    while i < a.len()
        invariant
            i <= a.len(),
            a@.len() == b@.len(),
            forall|j: int| 0 <= j < i ==> a.deep_view()[j] == b.deep_view()[j],
        decreases a.len() - i,
    {
        if !(a[i] == b[i]) {
            proof {
                assert(a.deep_view()[i as int] != b.deep_view()[i as int]);
            }
            return false;
        }
        i = i + 1;
    }
    proof {
        assert(a.deep_view() =~= b.deep_view());
    }
    true
}

fn clone_pairs(v: &Vec<(String, String)>) -> (r: Vec<(String, String)>)
    ensures
        r.deep_view() == v.deep_view(),
{
    let mut r: Vec<(String, String)> = Vec::new();
    let mut i: usize = 0;
    while i < v.len()
        invariant
            i <= v.len(),
            r@.len() == i,
            forall|j: int| 0 <= j < i ==> r.deep_view()[j] == v.deep_view()[j],
        decreases v.len() - i,
    {
        let p = (v[i].0.clone(), v[i].1.clone());
        r.push(p);
        proof {
            assert(r.deep_view()[i as int] == v.deep_view()[i as int]);
        }
        i = i + 1;
    }
    proof {
        assert(r.deep_view() =~= v.deep_view());
    }
    r
}

fn eq_pair_vecs(a: &Vec<(String, String)>, b: &Vec<(String, String)>) -> (r: bool)
    ensures
        r == (a.deep_view() == b.deep_view()),
{
    if a.len() != b.len() {
        proof {
            assert(a.deep_view().len() == a@.len());
            assert(b.deep_view().len() == b@.len());
        }
        return false;
    }
    let mut i: usize = 0;
    while i < a.len()
        invariant
            i <= a.len(),
            a@.len() == b@.len(),
            forall|j: int| 0 <= j < i ==> a.deep_view()[j] == b.deep_view()[j],
        decreases a.len() - i,
    {
        if !(a[i].0 == b[i].0 && a[i].1 == b[i].1) {
            proof {
                assert(a.deep_view()[i as int] != b.deep_view()[i as int]);
            }
            return false;
        }
        i = i + 1;
    }
    proof {
        assert(a.deep_view() =~= b.deep_view());
    }
    true
}

pub(crate) fn clone_tasks(v: &Vec<TaskState>) -> (r: Vec<TaskState>)
    ensures
        r.deep_view() == v.deep_view(),
{
    let mut r: Vec<TaskState> = Vec::new();
    let mut i: usize = 0;
    while i < v.len()
        invariant
            i <= v.len(),
            r@.len() == i,
            forall|j: int| 0 <= j < i ==> r.deep_view()[j] == v.deep_view()[j],
        decreases v.len() - i,
    {
        r.push(v[i].clone());
        proof {
            assert(r.deep_view()[i as int] == v.deep_view()[i as int]);
        }
        i = i + 1;
    }
    proof {
        assert(r.deep_view() =~= v.deep_view());
    }
    r
}

} // verus!
