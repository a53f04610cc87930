//! tux: the logic of a local assistant for Linux.
//!
//! The agent loop and the tools it may call, what is known of the host, the
//! model backends, the daemon's protocol and the setup of a machine. All of it
//! works on plain values; a program around this crate reads files, runs
//! commands and talks to models.
pub mod agent;
pub mod backend;
pub mod cli;
pub mod config;
pub mod context;
pub mod daemon;
pub mod decimal;
pub mod gui;
pub mod init;
pub mod json;
pub mod knowledge;
pub mod lines;
pub mod llama;
pub mod models;
pub mod paths;
pub mod search;
pub mod spinner;
pub mod text;
pub mod tools;

pub use agent::{Agent, Conversation};
pub use backend::{Backend, BackendKind, ChatMessage, MockBackend, Role};
pub use config::{BackendConfig, BackendType, InferenceConfig, TuxConfig};
pub use context::SystemContext;
pub use tools::{Tool, ToolRegistry, ToolResult};
