//! The x86-64 target of the dependency-graph builder.

pub mod dag;

pub use crate::codegen::target::x86_64::X86_64;
