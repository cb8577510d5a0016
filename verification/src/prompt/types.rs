//! The stored shape of a reusable prompt.

use vstd::prelude::*;

verus! {

/// A catalogued prompt: identity, description, tags and a coarse
/// complexity grade.
#[derive(Debug)]
pub struct Prompt {
    pub id: Option<String>,
    pub name: String,
    pub description: String,
    pub tags: Vec<String>,
    pub complexity: u8,
}

} // verus!
