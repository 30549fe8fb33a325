//! Generation for the low-level declarations.

pub mod cargo_toml;
