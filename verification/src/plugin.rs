//! The plugin runtime's decisions.

pub mod call;
pub mod host;
pub mod http;
pub mod loader;
pub mod log;
pub mod manifest;
pub mod memory;
pub mod registry;
pub mod toml_item;
