//! Protocol kinds of the A2A / MCP gateway.

pub mod registry;
