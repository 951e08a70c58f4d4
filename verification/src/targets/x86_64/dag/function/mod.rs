//! The nodes of x86-64 dependency graphs.

pub mod node;
