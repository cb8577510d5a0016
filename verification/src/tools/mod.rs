//! Data types of the tool-invocation surface.

pub mod project;

pub use project::ProjectArgs;

use vstd::prelude::*;

verus! {

/// A request to run a named tool with serialized arguments.
#[derive(Debug)]
pub struct ToolCall {
    pub name: String,
    pub arguments: String,
}

/// What a tool run produced.
#[derive(Debug)]
pub struct ToolResult {
    pub tool_name: String,
    pub output: String,
}

/// A schema-like description of a tool's parameters.
#[derive(Debug)]
pub struct ToolParameters {
    pub param_type: String,
    pub properties: Vec<(String, ParameterDefinition)>,
    pub required: Vec<String>,
}

/// One parameter of a tool.
#[derive(Debug)]
pub struct ParameterDefinition {
    pub param_type: String,
    pub description: Option<String>,
    pub enum_values: Option<Vec<String>>,
}

/// The function half of a tool call: its name and serialized arguments.
#[derive(Debug)]
pub struct ToolFunction {
    pub name: String,
    pub arguments: String,
}

} // verus!
