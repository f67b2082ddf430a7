//! User settings: the schema with its defaults, validation, and updates by
//! dotted key.

pub mod config;
pub mod store;
