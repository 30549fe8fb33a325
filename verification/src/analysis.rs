//! Analysis of the functions of one type.

pub mod functions;
pub mod imports;
pub mod special_functions;
pub mod special_laws;
pub mod special_tables;
