//! Classification of the conventional operations of a library type, and the
//! configuration that selects how each type is treated.

pub mod analysis;
pub mod codegen;
pub mod config;
pub mod library;
pub mod name_map;
pub mod paths;
pub mod text;
pub mod version;
pub mod version_map;
