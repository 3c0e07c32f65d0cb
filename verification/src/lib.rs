//! Agent core.

pub mod actor;
pub mod adapt;
pub mod approval;
pub mod attribution;
pub mod engine;
pub mod harness;
pub mod history;
pub mod json;
pub mod language_model;
pub mod lsp;
pub mod marketplace;
pub mod mcp;
pub mod message;
pub mod model_alias;
pub mod models;
pub mod monitor_bridge;
pub mod optimizer;
pub mod outside;
pub mod path_policy;
pub mod pathname;
pub mod paths;
pub mod permission;
pub mod plan;
pub mod plan_mode;
pub mod plugin;
pub mod prefix_stability;
pub mod proposed_plan;
pub mod runs;
pub mod schema;
pub mod session;
pub mod sidecar;
pub mod signals;
pub mod sorting;
pub mod startup;
pub mod subagent;
pub mod table;
pub mod text;
pub mod thread;
pub mod title;
pub mod tools;
pub mod toolset;
pub mod transcript;
