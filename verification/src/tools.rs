//! The tool execution adapter: the narrow interface through which the
//! manager reaches the external tool-invocation facility.

use vstd::prelude::*;

verus! {

/// One named argument of a tool invocation.  The value carries the JSON text
/// of the argument's value; the adapter implementation decodes it.
#[derive(Debug, Clone)]
pub struct ToolArg {
    /// The argument's name.
    pub name: String,
    /// The argument's value, as JSON text.
    pub value: String,
}

/// The mathematical image of a [`ToolArg`].
pub struct ToolArgView {
    pub name: Seq<char>,
    pub value: Seq<char>,
}

impl View for ToolArg {
    type V = ToolArgView;

    open spec fn view(&self) -> ToolArgView {
        ToolArgView { name: self.name@, value: self.value@ }
    }
}

/// The mathematical image of a sequence of [`ToolArg`]s.
pub open spec fn args_view(args: Seq<ToolArg>) -> Seq<ToolArgView> {
    args.map_values(|a: ToolArg| a@)
}

/// One entry of the tool schema catalog, passed verbatim from the tool
/// adapter to the backend.
pub struct ToolSchema {
    /// The tool's name.
    pub name: String,
    /// A human-readable description of the tool.
    pub description: String,
    /// The JSON-Schema-shaped description of the tool's parameters, as JSON
    /// text.
    pub parameters: String,
}

/// The contract of the external tool-invocation facility, consumed by the
/// manager.  Implementations live outside the library; the manager performs
/// no retries and treats any error value as a failure of the invocation.
pub trait ToolAdapter {
    /// The full catalog of tool schemas, used to build the backend request.
    fn list_tool_schemas(&self) -> Vec<ToolSchema>;

    /// Invoke the named tool with the given arguments.  Success carries the
    /// tool's textual result (a domain-level tool failure is ordinary result
    /// text); an error is a hard execution failure.
    fn execute(&self, name: &str, arguments: &Vec<ToolArg>) -> Result<String, String>;
}

} // verus!
