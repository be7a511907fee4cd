pub mod agent_loop;
pub mod builtin_tools;
pub mod compaction;
pub mod mcp_read;
pub mod message;
pub mod models;
pub mod orchestrator;
pub mod tool_context;
pub mod tool_schema;
pub mod turn;
