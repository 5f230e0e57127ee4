//! DevCtxEngine's core logic: configuration, chunking, ranking, hooks, and the
//! decisions its command line and servers make, each stated and proved.

pub mod config;
pub mod text;
pub mod rank;
pub mod path;
pub mod chunk;
pub mod chunker;
pub mod semantic;
pub mod memory;
pub mod hooks;
pub mod update_check;
pub mod git;
pub mod dirs;
pub mod types;
pub mod registry;
pub mod wizard_text;
pub mod help_map;
pub mod prompt_ui;
pub mod init_wizard;
pub mod wizard_flow;
pub mod central;
pub mod json;
pub mod remote;
pub mod central_remote;
pub mod models;
pub mod pipeline;
pub mod mcp_state;
pub mod cli;
pub mod transfer_apply;
pub mod watch;
pub mod backend;
pub mod api;
pub mod workspace;
pub mod routing;
