//! Tool definitions as advertised to the model, and plugin tool calls.
use vstd::prelude::*;
use crate::json::Json;

verus! {

/// A tool the model may call: its name, a description and the JSON schema
/// of its input.
pub struct ToolDefinition {
    pub name: String,
    pub description: String,
    pub input_schema: Json,
}

/// A call of a plugin-owned tool, with all the model sent.
pub struct PluginToolCall {
    /// The tool call ID from the model.
    pub id: String,
    /// Unscoped tool name.
    pub name: String,
    /// Parsed JSON arguments.
    pub arguments: Json,
}

impl ToolDefinition {
    /// A definition from its three parts.
    pub fn new(name: String, description: String, input_schema: Json) -> (d: ToolDefinition)
        ensures
            d.name == name,
            d.description == description,
            d.input_schema == input_schema,
    {
        ToolDefinition { name, description, input_schema }
    }
}

} // verus!
