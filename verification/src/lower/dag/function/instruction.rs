//! Instructions of a dependency graph, generic in what they hold.

use crate::ir::function::basic_block::BasicBlockId;
use vstd::prelude::*;

verus! {

/// Index of an instruction of a dependency graph.
#[derive(Clone, Copy, Debug, PartialEq, Eq, Structural, Hash)]
pub struct InstructionId(pub usize);

/// What an instruction of a dependency graph may hold.
pub trait InstructionData: Clone + core::fmt::Debug {

}

/// An instruction of a dependency graph: its payload and the block that
/// owns it.
pub struct Instruction<Data: InstructionData> {
    pub id: Option<InstructionId>,
    pub data: Data,
    pub parent: BasicBlockId,
}

} // verus!
