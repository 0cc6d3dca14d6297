//! The configuration file.

pub mod toml_schema;
