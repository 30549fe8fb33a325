//! Generation of what stands beside the bindings.

pub mod sys;
