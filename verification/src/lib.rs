//! Chat client core: conversation state, MCP protocol handling and tool logic.
pub mod text;
pub mod json;
pub mod chat;
pub mod types;
pub mod storage;
pub mod multiagent;
pub mod view;
pub mod net;
