//! The targets of the dependency-graph builder.

pub mod x86_64;
