//! The target-independent intermediate representation.

pub mod function;
pub mod module;
pub mod types;
pub mod value;
