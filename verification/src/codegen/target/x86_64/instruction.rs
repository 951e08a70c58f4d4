//! The machine instructions of x86-64 that the backend emits.

use crate::codegen::register::{Reg, VReg};
use crate::codegen::slot::SlotId;
use crate::ir::function::instruction::ICmpCond;
use vstd::prelude::*;

verus! {

/// A jump target: the number of a block in the emitted code.
#[derive(Clone, Copy, Debug, PartialEq, Eq, Structural, Hash)]
pub struct Label(pub usize);

/// The operations. The letters after the mnemonic say what the operands
/// are, destination first: `r` a register, `m` memory, `i` an immediate.
#[allow(non_camel_case_types)]
#[derive(Clone, Copy, Debug, PartialEq, Eq, Structural)]
pub enum Opcode {
    MOVri32,
    MOVrr32,
    MOVrr64,
    MOVrm32,
    MOVmr32,
    MOVmi32,
    ADDrr32,
    ADDri32,
    CMPri32,
    JMP,
    JE,
    JNE,
    JLE,
    JL,
    JGE,
    JG,
    PUSH64,
    POP64,
    RET,
    /// The pseudo-instruction that merges values at a join; removed before
    /// encoding.
    Phi,
}

/// A memory location.
#[derive(Clone, Copy, Debug, PartialEq, Eq, Structural)]
pub enum MemoryOperand {
    Slot(SlotId),
}

/// What an operand is.
#[derive(Clone, Copy, Debug, PartialEq, Eq, Structural)]
pub enum OperandData {
    Reg(Reg),
    VReg(VReg),
    Int32(i32),
    Mem(MemoryOperand),
    Block(Label),
}

/// How the instruction uses an operand.
#[derive(Clone, Copy, Debug, PartialEq, Eq, Structural)]
pub enum Role {
    /// Read only.
    Input,
    /// Written only.
    Output,
    /// Read, then written.
    InputOutput,
}

/// An operand: what it is and how it is used.
#[derive(Clone, Copy, Debug, PartialEq, Eq, Structural)]
pub struct Operand {
    pub data: OperandData,
    pub role: Role,
}

impl Operand {
    /// A plain operand, which is read.
    pub fn new(data: OperandData) -> (operand: Operand)
        ensures
            operand == (Operand { data, role: Role::Input }),
    {
        Operand { data, role: Role::Input }
    }

    /// An operand that is read.
    pub fn input(data: OperandData) -> (operand: Operand)
        ensures
            operand == (Operand { data, role: Role::Input }),
    {
        Operand { data, role: Role::Input }
    }

    /// An operand that is written.
    pub fn output(data: OperandData) -> (operand: Operand)
        ensures
            operand == (Operand { data, role: Role::Output }),
    {
        Operand { data, role: Role::Output }
    }

    /// An operand that is read and written.
    pub fn input_output(data: OperandData) -> (operand: Operand)
        ensures
            operand == (Operand { data, role: Role::InputOutput }),
    {
        Operand { data, role: Role::InputOutput }
    }
}

/// A machine instruction: the operation and its operands in the order that
/// the operation defines.
#[derive(Clone, Debug, PartialEq, Eq)]
pub struct InstructionData {
    pub opcode: Opcode,
    pub operands: Vec<Operand>,
}

/// The mathematical value of an `InstructionData`.
pub struct MachInst {
    pub opcode: Opcode,
    pub operands: Seq<Operand>,
}

impl View for InstructionData {
    type V = MachInst;

    open spec fn view(&self) -> MachInst {
        MachInst { opcode: self.opcode, operands: self.operands@ }
    }
}

impl Opcode {
    /// How the operation uses its operand at `at`. An addition reads and
    /// writes its first operand; a move, a pop and a `Phi` write theirs;
    /// every other operand is read.
    pub open spec fn role_of(self, at: int) -> Role {
        match self {
            Opcode::ADDrr32 | Opcode::ADDri32 => if at == 0 {
                Role::InputOutput
            } else {
                Role::Input
            },
            Opcode::MOVri32
            | Opcode::MOVrr32
            | Opcode::MOVrr64
            | Opcode::MOVrm32
            | Opcode::MOVmr32
            | Opcode::MOVmi32
            | Opcode::POP64
            | Opcode::Phi => if at == 0 {
                Role::Output
            } else {
                Role::Input
            },
            _ => Role::Input,
        }
    }

    /// Whether the operation takes `n` operands: none for a return, one for
    /// a jump, a push and a pop, the output and a pair for each predecessor
    /// for a `Phi`, and two for every other operation.
    pub open spec fn takes(self, n: nat) -> bool {
        match self {
            Opcode::RET => n == 0,
            Opcode::JMP
            | Opcode::JE
            | Opcode::JNE
            | Opcode::JLE
            | Opcode::JL
            | Opcode::JGE
            | Opcode::JG
            | Opcode::PUSH64
            | Opcode::POP64 => n == 1,
            Opcode::Phi => n % 2 == 1,
            _ => n == 2,
        }
    }
}

impl MachInst {
    /// The instruction has as many operands as its operation takes, each in
    /// the role that the operation gives it.
    pub open spec fn in_form(self) -> bool {
        &&& self.opcode.takes(self.operands.len())
        &&& forall|j: int|
            0 <= j < self.operands.len() ==> (#[trigger] self.operands[j]).role
                == self.opcode.role_of(j)
    }
}

/// The instructions that a list of `InstructionData` stands for.
pub open spec fn inst_views(insts: Seq<InstructionData>) -> Seq<MachInst> {
    Seq::new(insts.len(), |i: int| insts[i]@)
}

/// The conditional jump that is taken when a comparison by `cond` holds;
/// `None` for a predicate that has no jump here.
pub open spec fn jump_for(cond: ICmpCond) -> Option<Opcode> {
    match cond {
        ICmpCond::Eq => Some(Opcode::JE),
        ICmpCond::Ne => Some(Opcode::JNE),
        ICmpCond::Sle => Some(Opcode::JLE),
        ICmpCond::Slt => Some(Opcode::JL),
        ICmpCond::Sge => Some(Opcode::JGE),
        ICmpCond::Sgt => Some(Opcode::JG),
        _ => None,
    }
}

/// The conditional jump for `cond`, as `jump_for` defines it.
pub fn jump_opcode(cond: ICmpCond) -> (opcode: Option<Opcode>)
    ensures
        opcode == jump_for(cond),
{
    match cond {
        ICmpCond::Eq => Some(Opcode::JE),
        ICmpCond::Ne => Some(Opcode::JNE),
        ICmpCond::Sle => Some(Opcode::JLE),
        ICmpCond::Slt => Some(Opcode::JL),
        ICmpCond::Sge => Some(Opcode::JGE),
        ICmpCond::Sgt => Some(Opcode::JG),
        _ => None,
    }
}

} // verus!
