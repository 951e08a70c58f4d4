//! Instructions of the intermediate representation.

use crate::ir::function::basic_block::BasicBlockId;
use crate::ir::types::TypeId;
use crate::ir::value::{ConstantData, ValueId};
use vstd::prelude::*;

verus! {

/// Index of an instruction in a function's instruction arena.
#[derive(Clone, Copy, Debug, PartialEq, Eq, Structural, Hash)]
pub struct InstructionId(pub usize);

/// The operation an instruction performs.
#[derive(Clone, Copy, Debug, PartialEq, Eq, Structural)]
pub enum Opcode {
    Alloca,
    Phi,
    Load,
    Store,
    Add,
    Sub,
    Mul,
    ICmp,
    Sext,
    Zext,
    GetElementPtr,
    Call,
    Br,
    CondBr,
    Ret,
    Invalid,
}

/// The predicate of an integer comparison.
#[derive(Clone, Copy, Debug, PartialEq, Eq, Structural)]
pub enum ICmpCond {
    Eq,
    Ne,
    Ugt,
    Uge,
    Ult,
    Ule,
    Sgt,
    Sge,
    Slt,
    Sle,
}

/// The operands of an instruction, by kind.
#[derive(Clone, Debug, PartialEq, Eq)]
pub enum Operand {
    Alloca { ty: TypeId, num_elements: ConstantData, align: u32 },
    /// One incoming value for each predecessor block, in predecessor order.
    Phi { ty: TypeId, incoming: Vec<(ValueId, BasicBlockId)> },
    Load { ty: TypeId, addr: ValueId, align: u32 },
    Store { ty: TypeId, value: ValueId, addr: ValueId, align: u32 },
    IntBinary { ty: TypeId, nsw: bool, nuw: bool, lhs: ValueId, rhs: ValueId },
    ICmp { ty: TypeId, cond: ICmpCond, lhs: ValueId, rhs: ValueId },
    Br { block: BasicBlockId },
    /// Control goes to `true_block` when `arg` holds, to `false_block`
    /// otherwise.
    CondBr { arg: ValueId, true_block: BasicBlockId, false_block: BasicBlockId },
    Ret { ty: TypeId, val: Option<ValueId> },
    Invalid,
}

/// The kind of an `Operand`, without its fields.
#[derive(Clone, Copy, Debug, PartialEq, Eq, Structural)]
pub enum OperandKind {
    Alloca,
    Phi,
    Load,
    Store,
    IntBinary,
    ICmp,
    Br,
    CondBr,
    Ret,
    Invalid,
}

impl Operand {
    pub open spec fn kind_of(self) -> OperandKind {
        match self {
            Operand::Alloca { .. } => OperandKind::Alloca,
            Operand::Phi { .. } => OperandKind::Phi,
            Operand::Load { .. } => OperandKind::Load,
            Operand::Store { .. } => OperandKind::Store,
            Operand::IntBinary { .. } => OperandKind::IntBinary,
            Operand::ICmp { .. } => OperandKind::ICmp,
            Operand::Br { .. } => OperandKind::Br,
            Operand::CondBr { .. } => OperandKind::CondBr,
            Operand::Ret { .. } => OperandKind::Ret,
            Operand::Invalid => OperandKind::Invalid,
        }
    }

    /// The kind of this operand.
    pub fn kind(&self) -> (kind: OperandKind)
        ensures
            kind == self.kind_of(),
    {
        match self {
            Operand::Alloca { .. } => OperandKind::Alloca,
            Operand::Phi { .. } => OperandKind::Phi,
            Operand::Load { .. } => OperandKind::Load,
            Operand::Store { .. } => OperandKind::Store,
            Operand::IntBinary { .. } => OperandKind::IntBinary,
            Operand::ICmp { .. } => OperandKind::ICmp,
            Operand::Br { .. } => OperandKind::Br,
            Operand::CondBr { .. } => OperandKind::CondBr,
            Operand::Ret { .. } => OperandKind::Ret,
            Operand::Invalid => OperandKind::Invalid,
        }
    }
}

/// An instruction: what it does, on what, and the block that owns it.
#[derive(Clone, Debug, PartialEq, Eq)]
pub struct Instruction {
    /// The instruction's own id, set when it is placed in an arena.
    pub id: Option<InstructionId>,
    pub opcode: Opcode,
    pub operand: Operand,
    pub parent: BasicBlockId,
}

impl Instruction {
    /// An instruction that has not been placed in an arena yet.
    pub fn new(opcode: Opcode, operand: Operand, parent: BasicBlockId) -> (inst: Instruction)
        ensures
            inst == (Instruction { id: None, opcode, operand, parent }),
    {
        Instruction { id: None, opcode, operand, parent }
    }
}

} // verus!
