//! Verified core of an agent system in which every model process has a role of
//! its own.

pub mod agent;
pub mod api;
pub mod assoc;
pub mod base64_bytes;
pub mod clock;
pub mod config;
pub mod events;
pub mod hooks;
pub mod ids;
pub mod json;
pub mod messages;
pub mod text;
pub mod toml_doc;
pub mod toml_layout;
