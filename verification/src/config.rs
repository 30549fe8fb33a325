//! Configuration.

pub mod config;
pub mod external_libraries;
pub mod gobjects;
pub mod ident;
pub mod toml_helper;
pub mod work_mode;
