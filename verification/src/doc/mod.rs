//! Documentation engine data types.

pub mod types;

use vstd::prelude::*;

use crate::doc::types::{DocType, Documentation};

verus! {

use vstd::string::StringExecFns;

/// The value under `k`, or the empty text when the key is absent.
pub open spec fn entry_or_empty(m: Map<Seq<char>, Seq<char>>, k: Seq<char>) -> Seq<char> {
    if m.dom().contains(k) {
        m[k]
    } else {
        Seq::<char>::empty()
    }
}

/// The markdown text a document renders to: an overview or architecture
/// layout built from title, content and the matching metadata entry, and
/// the raw content for every other kind.
pub open spec fn markdown_of(d: &Documentation) -> Seq<char> {
    if d.doc_type == DocType::ProjectOverview {
        "# "@ + d.title@ + "\n\n## Description\n"@ + d.content@ + "\n\n## Technologies\n"@
            + entry_or_empty(d.metadata@, "technologies"@) + "\n"@
    } else if d.doc_type == DocType::Architecture {
        "# Architecture: "@ + d.title@ + "\n\n## Overview\n"@ + d.content@
            + "\n\n## Design Principles\n"@ + entry_or_empty(d.metadata@, "design_principles"@)
            + "\n"@
    } else {
        d.content@
    }
}

/// A documentation engine rooted at a base directory. The file I/O around
/// it lives with the caller; this records where the documents go.
#[derive(Debug)]
pub struct FileDocumentationEngine {
    pub base_path: String,
}

impl FileDocumentationEngine {
    pub fn new(base_path: String) -> (r: Self)
        ensures
            r.base_path@ == base_path@,
    {
        FileDocumentationEngine { base_path }
    }

    /// Renders a document to markdown, exactly as `markdown_of` lays it
    /// out. Writing the text to its file is the caller's part.
    pub fn generate_markdown(&self, doc: &Documentation) -> (r: String)
        requires
            doc.metadata.wf(),
        ensures
            r@ == markdown_of(doc),
    {
        match doc.doc_type {
            DocType::ProjectOverview => {
                let mut md = String::from_str("# ");
                md.append(doc.title.as_str());
                md.append("\n\n## Description\n");
                md.append(doc.content.as_str());
                md.append("\n\n## Technologies\n");
                match doc.metadata.get("technologies") {
                    Some(v) => {
                        md.append(v.as_str());
                    },
                    None => {},
                }
                md.append("\n");
                md
            },
            DocType::Architecture => {
                let mut md = String::from_str("# Architecture: ");
                md.append(doc.title.as_str());
                md.append("\n\n## Overview\n");
                md.append(doc.content.as_str());
                md.append("\n\n## Design Principles\n");
                match doc.metadata.get("design_principles") {
                    Some(v) => {
                        md.append(v.as_str());
                    },
                    None => {},
                }
                md.append("\n");
                md
            },
            _ => doc.content.clone(),
        }
    }
}

} // verus!
