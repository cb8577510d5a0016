//! Kinds and states of generated documentation.

use vstd::prelude::*;

use crate::state::clock::now_millis;
use crate::strmap::StrMap;

verus! {

/// What kind of document is being produced.
#[derive(Debug, Clone, Copy, PartialEq, Eq, Structural)]
pub enum DocType {
    /// Project overview documentation.
    ProjectOverview,
    /// Technical specification.
    TechnicalSpec,
    /// Architecture design.
    Architecture,
    /// API documentation.
    Api,
    /// User manual.
    UserManual,
    /// JSON configuration.
    Json,
    /// Markdown documentation.
    Markdown,
    /// Other documentation type.
    Other,
}

impl DocType {
    /// The kind's identifier, in place of `Display`.
    pub fn as_str(&self) -> (r: &'static str)
        ensures
            r@ == match self {
                DocType::ProjectOverview => "project_overview"@,
                DocType::TechnicalSpec => "technical_spec"@,
                DocType::Architecture => "architecture"@,
                DocType::Api => "api"@,
                DocType::UserManual => "user_manual"@,
                DocType::Json => "json"@,
                DocType::Markdown => "markdown"@,
                DocType::Other => "other"@,
            },
    {
        match self {
            DocType::ProjectOverview => "project_overview",
            DocType::TechnicalSpec => "technical_spec",
            DocType::Architecture => "architecture",
            DocType::Api => "api",
            DocType::UserManual => "user_manual",
            DocType::Json => "json",
            DocType::Markdown => "markdown",
            DocType::Other => "other",
        }
    }
}

impl Default for DocType {
    fn default() -> (r: Self)
        ensures
            r == DocType::Markdown,
    {
        DocType::Markdown
    }
}

/// Progress of one documented step.
#[derive(Debug, Clone, Copy, PartialEq, Eq, Structural)]
pub enum DocumentationStepStatus {
    Pending,
    InProgress,
    Completed,
    Failed,
}

impl Default for DocumentationStepStatus {
    fn default() -> (r: Self)
        ensures
            r == DocumentationStepStatus::Pending,
    {
        DocumentationStepStatus::Pending
    }
}

/// Relies on uuid::Uuid::new_v4 and its Display rendering: a freshly
/// generated random identifier. The value depends on the generator's
/// entropy, so nothing is promised about it.
#[verifier::external_body]
fn fresh_uuid_string() -> String {
    uuid::Uuid::new_v4().to_string()
}

/// One step of a document: what was done, with what code and output.
#[derive(Debug)]
pub struct DocumentationStep {
    pub id: String,
    pub title: String,
    pub description: Option<String>,
    pub code: Option<String>,
    pub output: Option<String>,
    pub status: DocumentationStepStatus,
    pub created_at: i64,
    pub updated_at: i64,
    pub completed_at: Option<i64>,
}

/// A document tracked by the engine: its identity, content, kind,
/// location and free-form metadata. Timestamps are milliseconds since the
/// Unix epoch.
#[derive(Debug)]
pub struct Documentation {
    pub id: String,
    pub title: String,
    pub description: Option<String>,
    pub content: String,
    pub doc_type: DocType,
    pub path: String,
    pub project: String,
    pub priority: String,
    pub owner: String,
    pub tags: Vec<String>,
    pub additional_info: StrMap,
    pub steps: Vec<DocumentationStep>,
    pub created_at: i64,
    pub updated_at: i64,
    pub metadata: StrMap,
}

impl Documentation {
    /// A fresh document with a random id, stamped with the current
    /// wall-clock time and otherwise empty.
    pub fn new(
        title: String,
        content: String,
        doc_type: DocType,
        path: String,
        project: String,
    ) -> (r: Self)
        ensures
            r.title@ == title@,
            r.content@ == content@,
            r.doc_type == doc_type,
            r.path@ == path@,
            r.project@ == project@,
            r.description is None,
            r.owner@ == Seq::<char>::empty(),
            r.priority@ == Seq::<char>::empty(),
            r.tags@.len() == 0,
            r.additional_info@ == Map::<Seq<char>, Seq<char>>::empty(),
            r.additional_info.wf(),
            r.steps@.len() == 0,
            r.created_at == r.updated_at,
            r.metadata@ == Map::<Seq<char>, Seq<char>>::empty(),
            r.metadata.wf(),
    {
        let now = now_millis();
        Documentation {
            id: fresh_uuid_string(),
            title,
            description: None,
            content,
            doc_type,
            path,
            project,
            owner: String::new(),
            priority: String::new(),
            tags: Vec::new(),
            additional_info: StrMap::new(),
            steps: Vec::new(),
            created_at: now,
            updated_at: now,
            metadata: StrMap::new(),
        }
    }

    /// The same document with one more metadata entry.
    pub fn with_metadata(self, key: &str, value: &str) -> (r: Self)
        requires
            self.metadata.wf(),
        ensures
            r.metadata.wf(),
            r.metadata@ == self.metadata@.insert(key@, value@),
            r.id == self.id,
            r.title == self.title,
            r.description == self.description,
            r.content == self.content,
            r.doc_type == self.doc_type,
            r.path == self.path,
            r.project == self.project,
            r.priority == self.priority,
            r.owner == self.owner,
            r.tags == self.tags,
            r.additional_info == self.additional_info,
            r.steps == self.steps,
            r.created_at == self.created_at,
            r.updated_at == self.updated_at,
    {
        let mut doc = self;
        doc.metadata.insert(key, value);
        doc
    }
}

} // verus!
