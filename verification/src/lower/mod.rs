//! Lowering of the intermediate representation to target-specific graphs.

pub mod dag;
pub mod isa;
