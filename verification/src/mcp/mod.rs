//! MCP (Model Context Protocol) integration: the configured servers, the tools
//! that they advertise and the exchange with them.

pub mod client;
pub mod config;
pub mod registry;
pub mod tool;
