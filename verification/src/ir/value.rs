//! Values: what an operand of an instruction can refer to.

use crate::ir::function::instruction::InstructionId;
use vstd::prelude::*;

verus! {

/// Index of a value in a function's value table.
#[derive(Clone, Copy, Debug, PartialEq, Eq, Structural, Hash)]
pub struct ValueId(pub usize);

/// An integer literal together with its width.
#[derive(Clone, Copy, Debug, PartialEq, Eq, Structural)]
pub enum ConstantInt {
    Int1(bool),
    Int8(i8),
    Int32(i32),
    Int64(i64),
}

/// A constant operand.
#[derive(Clone, Copy, Debug, PartialEq, Eq, Structural)]
pub enum ConstantData {
    Undef,
    Int(ConstantInt),
}

/// What a `ValueId` resolves to.
#[derive(Clone, Copy, Debug, PartialEq, Eq, Structural)]
pub enum Value {
    /// The result of an instruction.
    Instruction(InstructionId),
    /// The n-th formal parameter of the function.
    Argument(usize),
    /// A literal.
    Constant(ConstantData),
}

impl Value {
    /// The 32-bit literal this value stands for, if it is one.
    pub open spec fn as_i32(self) -> Option<i32> {
        match self {
            Value::Constant(ConstantData::Int(ConstantInt::Int32(i))) => Some(i),
            _ => None,
        }
    }

    /// The instruction whose result this value is, if it is one.
    pub open spec fn as_inst(self) -> Option<InstructionId> {
        match self {
            Value::Instruction(id) => Some(id),
            _ => None,
        }
    }
}

} // verus!
