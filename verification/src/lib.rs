//! A compiler backend core: an arena-based SSA graph, a lowering context with
//! virtual registers and stack slots, a direct instruction selector and a
//! dependency-graph builder for x86-64.

pub mod arena;
pub mod codegen;
pub mod error;
pub mod fx;
pub mod ir;
pub mod lower;
pub mod targets;
pub mod text;
