//! Machine-level code: registers, stack slots, and the lowering of the
//! intermediate representation to machine instructions.

pub mod compile;
pub mod function;
pub mod lower;
pub mod register;
pub mod slot;
pub mod target;
