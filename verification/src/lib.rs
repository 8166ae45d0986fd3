//! The rules by which an editor runs agents and the context servers (MCP
//! servers) they use: which processes are started, watched and stopped, how
//! their tools and prompts are registered, and what text is shown or sent.

pub mod agent_connection_store;
pub mod assoc_map;
pub mod buffer;
pub mod context_server;
pub mod context_server_registry;
pub mod context_server_tool;
pub mod digits;
pub mod editable_context;
pub mod instructions;
pub mod json;
pub mod markdown;
pub mod order;
pub mod ordered_map;
pub mod process;
pub mod stdio_transport;
pub mod text;
pub mod tool_content;
