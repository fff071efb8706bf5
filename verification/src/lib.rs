//! Agent orchestration core: a conversational loop between a user, an LLM
//! backend, and a set of invocable tools.
//!
//! The library owns turn-taking, context accumulation, the tool-call
//! lifecycle, and context-size-triggered summarization.  The LLM backend and
//! the tool implementations are collaborators reached through the narrow
//! [`backends::Backend`] and [`tools::ToolAdapter`] interfaces; callers supply
//! implementations of those and drive [`manager::AgentManager`].

pub mod backends;
pub mod context;
pub mod manager;
pub mod tools;
