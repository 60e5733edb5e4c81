//! Chatting with a model: MCP servers, built-in tools and the completion loop.
use vstd::prelude::*;

pub mod mcp;
pub mod mcp_client;
pub mod completion;
pub mod agent;
pub mod tools;

verus! {

/// Whether the model may call tools.
#[derive(Debug, Clone, Copy, PartialEq, Eq, Structural)]
pub enum ExecMode {
    /// Plain chat, no tools offered.
    Chat,
    /// Tools are offered to the model.
    Agent,
}

impl Default for ExecMode {
    fn default() -> (r: Self)
        ensures
            r == ExecMode::Chat,
    {
        ExecMode::Chat
    }
}

} // verus!
