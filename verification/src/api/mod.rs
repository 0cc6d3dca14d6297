//! Edits and reads of the configuration document behind the HTTP API.

pub mod agents;
pub mod bindings;
pub mod config;
pub mod error;
pub mod mcp;
pub mod messaging;
pub mod server;
pub mod settings;
