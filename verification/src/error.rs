//! The error that lowering reports for an instruction it has no rule for.

use crate::ir::function::instruction::{InstructionId, OperandKind};
use vstd::prelude::*;
use vstd::string::StringExecFns;

verus! {

/// Why an instruction could not be lowered.
#[derive(Clone, Copy, Debug, PartialEq, Eq, Structural)]
pub enum Reason {
    /// The instruction carries no id of its own.
    Detached,
    /// There is no rule for this kind of instruction.
    NoRule,
    /// An integer operation other than addition.
    Operation,
    /// An operand names a value that the function does not have.
    UnknownValue,
    /// An operand names an instruction that the function does not have.
    UnknownInstruction,
    /// A block that has no label.
    UnknownBlock,
    /// An address that is not a stack slot.
    Address,
    /// A type other than the 32-bit integer.
    Type,
    /// An operand that is neither an instruction result nor a 32-bit
    /// literal, or is the one where only the other is accepted.
    Operand,
    /// A branch condition that no integer comparison produces.
    Condition,
    /// A comparison predicate that has no conditional jump.
    Predicate,
    /// A return without a value.
    RetVoid,
    /// A value of the block being lowered that has no register.
    Unavailable,
}

/// A recoverable failure of lowering: the instruction it stopped at, that
/// instruction's kind, and the reason.
#[derive(Clone, Copy, Debug, PartialEq, Eq, Structural)]
pub enum Error {
    Todo { inst: Option<InstructionId>, kind: OperandKind, reason: Reason },
}

impl Reason {
    /// A short description of the reason.
    pub open spec fn message_of(self) -> &'static str {
        match self {
            Reason::Detached => "instruction without id",
            Reason::NoRule => "unimplemented",
            Reason::Operation => "integer operation",
            Reason::UnknownValue => "unknown value",
            Reason::UnknownInstruction => "unknown instruction",
            Reason::UnknownBlock => "unknown block",
            Reason::Address => "address",
            Reason::Type => "type",
            Reason::Operand => "convert value",
            Reason::Condition => "condition",
            Reason::Predicate => "predicate",
            Reason::RetVoid => "ret void",
            Reason::Unavailable => "value without register",
        }
    }

    /// A short description of the reason.
    pub fn message(&self) -> (text: &'static str)
        ensures
            text == self.message_of(),
    {
        match self {
            Reason::Detached => "instruction without id",
            Reason::NoRule => "unimplemented",
            Reason::Operation => "integer operation",
            Reason::UnknownValue => "unknown value",
            Reason::UnknownInstruction => "unknown instruction",
            Reason::UnknownBlock => "unknown block",
            Reason::Address => "address",
            Reason::Type => "type",
            Reason::Operand => "convert value",
            Reason::Condition => "condition",
            Reason::Predicate => "predicate",
            Reason::RetVoid => "ret void",
            Reason::Unavailable => "value without register",
        }
    }
}

impl Error {
    /// The reason of the failure.
    pub open spec fn reason_of(self) -> Reason {
        match self {
            Error::Todo { reason, .. } => reason,
        }
    }

    /// The reason of the failure.
    pub fn reason(&self) -> (reason: Reason)
        ensures
            reason == self.reason_of(),
    {
        match self {
            Error::Todo { reason, .. } => *reason,
        }
    }

    /// The error as text: `Todo(` the reason's message `)`.
    pub fn to_string(&self) -> (text: String)
        ensures
            text@ == "Todo("@ + self.reason_of().message_of()@ + ")"@,
    {
        let text = String::from_str("Todo(");
        let text = text.concat(self.reason().message());
        text.concat(")")
    }
}

} // verus!
