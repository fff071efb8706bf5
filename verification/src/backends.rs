//! The LLM backend interface: the narrow contract through which the manager
//! reaches the external model-inference facility, and the structured
//! response it hands back.

use vstd::prelude::*;
use crate::tools::{ToolArg, ToolArgView, ToolSchema, args_view};
use crate::context::opt_str_view;

verus! {

/// A structured tool invocation request emitted by the backend inside one
/// response.
#[derive(Debug, Clone)]
pub struct ToolUse {
    /// Tool name.
    pub name: String,
    /// Tool arguments: argument name and JSON-text value, in the order the
    /// backend listed them.
    pub args: Vec<ToolArg>,
    /// The opaque correlation identifier the backend assigned to this call.
    /// It must be echoed unmodified in the matching tool result.
    pub id: Option<String>,
}

/// The mathematical image of a [`ToolUse`].
pub struct ToolUseView {
    pub name: Seq<char>,
    pub args: Seq<ToolArgView>,
    pub id: Option<Seq<char>>,
}

impl View for ToolUse {
    type V = ToolUseView;

    open spec fn view(&self) -> ToolUseView {
        ToolUseView {
            name: self.name@,
            args: args_view(self.args@),
            id: opt_str_view(self.id),
        }
    }
}

/// The mathematical image of a sequence of [`ToolUse`]s.
pub open spec fn tool_uses_view(uses: Seq<ToolUse>) -> Seq<ToolUseView> {
    uses.map_values(|u: ToolUse| u@)
}

/// The models the Bedrock-backed collaborator can run.
#[derive(Clone, Copy, Debug)]
pub enum BedrockModel {
    Claude37Sonnet,
    Claude35Haiku,
}

/// A structured response from an LLM backend: generated text plus zero or
/// more tool invocation requests.
#[derive(Default, Clone)]
pub struct BackendResponse {
    /// The text content of the response.
    pub content: String,
    /// The model that produced it.
    pub model: String,
    /// Tokens spent on this request and response, where the backend reports
    /// them.
    pub tokens_used: Option<usize>,
    /// Tool calls extracted from the response, in the order returned.
    pub tool_calls: Vec<ToolUse>,
}

/// The mathematical image of a [`BackendResponse`].
pub struct BackendResponseView {
    pub content: Seq<char>,
    pub model: Seq<char>,
    pub tokens_used: Option<usize>,
    pub tool_calls: Seq<ToolUseView>,
}

impl View for BackendResponse {
    type V = BackendResponseView;

    open spec fn view(&self) -> BackendResponseView {
        BackendResponseView {
            content: self.content@,
            model: self.model@,
            tokens_used: self.tokens_used,
            tool_calls: tool_uses_view(self.tool_calls@),
        }
    }
}

/// Prepares the backend registry.  Backends manage their own setup, so
/// there is nothing further to record here.
pub fn init() {
}

/// Core functionality every language model backend offers.
pub trait BackendCore {
    /// The backend's name.
    fn name(&self) -> &'static str;

    /// The backend's context window size.
    fn context_window(&self) -> usize;
}

/// The contract of the external model-inference facility, consumed by the
/// manager.  Implementations live outside the library; any retry or backoff
/// policy is internal to them and invisible here.
pub trait Backend: BackendCore {
    /// Generate a response for the flattened context, offering the given
    /// tool schema catalog, correlated to the given session.  An error
    /// carries the underlying message.
    fn generate_response(
        &self,
        prompt: &str,
        tools: &Vec<ToolSchema>,
        session_id: &str,
    ) -> Result<BackendResponse, String>;
}

} // verus!
