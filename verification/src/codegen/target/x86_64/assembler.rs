//! The assembler: machine instructions whose registers are physical become
//! instructions of the encoder, and those become bytes.
//!
//! The encoder is `iced_x86`. Its instructions are opaque here; what it
//! makes of an operation and its operands, and of a list of instructions,
//! is named rather than described.

use crate::codegen::function::Function;
use crate::codegen::register::Reg;
use crate::codegen::target::x86_64::instruction::{
    inst_views, InstructionData, MachInst, Opcode, OperandData,
};
use crate::fx::{map_get, map_insert};
use iced_x86::{
    BlockEncoder, BlockEncoderOptions, Code as IcedCode, IcedError, Instruction as IcedInst,
    InstructionBlock, Register as IcedRegister,
};
use rustc_hash::FxHashMap;
use vstd::prelude::*;

verus! {

#[verifier::external_type_specification]
#[verifier::external_body]
pub struct ExIcedInst(IcedInst);

#[verifier::external_type_specification]
#[verifier::external_body]
pub struct ExIcedRegister(IcedRegister);

#[verifier::external_type_specification]
#[verifier::external_body]
pub struct ExIcedError(IcedError);

/// The width of the machine in bits.
pub const BITNESS: u32 = 64;

/// The address at which the code is laid out.
pub const TARGET_RIP: u64 = 0;

/// A function of the module being assembled, by its position.
#[derive(Clone, Copy, Debug, PartialEq, Eq, Structural)]
pub struct FuncId(pub usize);

/// The operations of the encoder that the assembler uses.
#[derive(Clone, Copy, Debug, PartialEq, Eq, Structural)]
pub enum Code {
    /// Load a 32-bit literal into a 32-bit register.
    MovR32Imm32,
    /// Copy a 64-bit register.
    MovRm64R64,
    /// Push a 64-bit register.
    PushR64,
    /// Pop a 64-bit register.
    PopR64,
    /// Return.
    Retnq,
}

impl Code {
    /// How many operands the operation takes.
    pub open spec fn operand_count(self) -> nat {
        match self {
            Code::MovR32Imm32 => 2,
            Code::MovRm64R64 => 2,
            Code::PushR64 => 1,
            Code::PopR64 => 1,
            Code::Retnq => 0,
        }
    }
}

/// The physical registers that the assembler can name.
#[derive(Clone, Copy, Debug, PartialEq, Eq, Structural)]
pub enum Register {
    EAX,
    ECX,
    RSP,
    RBP,
}

/// Why a machine instruction has no encoding.
#[derive(Clone, Copy, Debug, PartialEq, Eq, Structural)]
pub enum Fault {
    /// The operation is not one that the assembler encodes.
    Opcode,
    /// An operand is missing or is not of the kind that the operation takes.
    Operand,
    /// A register that the assembler cannot name.
    Register,
    /// The encoder refused the operation with these operands.
    Rejected,
}

/// A failure of the assembler.
#[derive(Clone, Copy, Debug, PartialEq, Eq, Structural)]
pub enum AssembleError {
    /// No label is left for the function.
    Labels(FuncId),
    /// The instruction at the given position of the function has no
    /// encoding.
    Instruction(FuncId, usize, Fault),
    /// The encoder could not lay the instructions out.
    Encoder,
}

/// The encoder's register for `register`.
pub uninterp spec fn register_value(register: Register) -> IcedRegister;

/// The encoder's instruction for an operation without operands.
pub uninterp spec fn nullary(code: Code) -> IcedInst;

/// The encoder's instruction for an operation on one register, if it makes
/// one.
pub uninterp spec fn unary(code: Code, register: IcedRegister) -> Option<IcedInst>;

/// The encoder's instruction for an operation on two registers, if it makes
/// one.
pub uninterp spec fn binary(code: Code, first: IcedRegister, second: IcedRegister) -> Option<
    IcedInst,
>;

/// The encoder's instruction for an operation on a register and a 32-bit
/// literal, if it makes one.
pub uninterp spec fn immediate(code: Code, register: IcedRegister, value: i32) -> Option<IcedInst>;

/// The bytes that the encoder lays out for `instructions` from address
/// `rip` on a machine of `bitness` bits, if it can.
pub uninterp spec fn machine_code(bitness: u32, instructions: Seq<IcedInst>, rip: u64) -> Option<
    Seq<u8>,
>;

/// The value of `iced_x86::Register` that has the name of `register`.
#[verifier::external_body]
pub(crate) fn iced_register(register: Register) -> (value: IcedRegister)
    ensures
        value == register_value(register),
{
    match register {
        Register::EAX => IcedRegister::EAX,
        Register::ECX => IcedRegister::ECX,
        Register::RSP => IcedRegister::RSP,
        Register::RBP => IcedRegister::RBP,
    }
}

/// `Instruction::with` on the encoder's operation that has the name of
/// `code`, which must take no operand. The result is named, not described.
#[verifier::external_body]
pub(crate) fn with_code(code: Code) -> (inst: IcedInst)
    requires
        code.operand_count() == 0,
    ensures
        inst == nullary(code),
{
    IcedInst::with(
        match code {
            Code::MovR32Imm32 => IcedCode::Mov_r32_imm32,
            Code::MovRm64R64 => IcedCode::Mov_rm64_r64,
            Code::PushR64 => IcedCode::Push_r64,
            Code::PopR64 => IcedCode::Pop_r64,
            Code::Retnq => IcedCode::Retnq,
        },
    )
}

/// `Instruction::with1` on the encoder's operation that has the name of
/// `code`, which must take one operand, and a register. The result is
/// named, not described; nothing is claimed of when it is an error.
#[verifier::external_body]
pub(crate) fn with_register(code: Code, register: IcedRegister) -> (inst: Result<
    IcedInst,
    IcedError,
>)
    requires
        code.operand_count() == 1,
    ensures
        match inst {
            Ok(made) => unary(code, register) == Some(made),
            Err(_) => unary(code, register) is None,
        },
{
    IcedInst::with1(
        match code {
            Code::MovR32Imm32 => IcedCode::Mov_r32_imm32,
            Code::MovRm64R64 => IcedCode::Mov_rm64_r64,
            Code::PushR64 => IcedCode::Push_r64,
            Code::PopR64 => IcedCode::Pop_r64,
            Code::Retnq => IcedCode::Retnq,
        },
        register,
    )
}

/// `Instruction::with2` on the encoder's operation that has the name of
/// `code`, which must take two operands, and two registers. The result is
/// named, not described; nothing is claimed of when it is an error.
#[verifier::external_body]
pub(crate) fn with_registers(code: Code, first: IcedRegister, second: IcedRegister) -> (inst:
    Result<IcedInst, IcedError>)
    requires
        code.operand_count() == 2,
    ensures
        match inst {
            Ok(made) => binary(code, first, second) == Some(made),
            Err(_) => binary(code, first, second) is None,
        },
{
    IcedInst::with2(
        match code {
            Code::MovR32Imm32 => IcedCode::Mov_r32_imm32,
            Code::MovRm64R64 => IcedCode::Mov_rm64_r64,
            Code::PushR64 => IcedCode::Push_r64,
            Code::PopR64 => IcedCode::Pop_r64,
            Code::Retnq => IcedCode::Retnq,
        },
        first,
        second,
    )
}

/// `Instruction::with2` on the encoder's operation that has the name of
/// `code`, which must take two operands, a register and a 32-bit literal.
/// The result is named, not described; nothing is claimed of when it is an
/// error.
#[verifier::external_body]
pub(crate) fn with_immediate(code: Code, register: IcedRegister, value: i32) -> (inst: Result<
    IcedInst,
    IcedError,
>)
    requires
        code.operand_count() == 2,
    ensures
        match inst {
            Ok(made) => immediate(code, register, value) == Some(made),
            Err(_) => immediate(code, register, value) is None,
        },
{
    IcedInst::with2(
        match code {
            Code::MovR32Imm32 => IcedCode::Mov_r32_imm32,
            Code::MovRm64R64 => IcedCode::Mov_rm64_r64,
            Code::PushR64 => IcedCode::Push_r64,
            Code::PopR64 => IcedCode::Pop_r64,
            Code::Retnq => IcedCode::Retnq,
        },
        register,
        value,
    )
}

/// `BlockEncoder::encode` on one block that holds `instructions` and starts
/// at `rip`, asked to report relocations; the result is the block's code
/// buffer. The bytes are named, not described.
#[verifier::external_body]
pub(crate) fn encode_block(bitness: u32, instructions: &Vec<IcedInst>, rip: u64) -> (bytes: Result<
    Vec<u8>,
    IcedError,
>)
    ensures
        match bytes {
            Ok(code) => machine_code(bitness, instructions@, rip) == Some(code@),
            Err(_) => machine_code(bitness, instructions@, rip) is None,
        },
{
    let block = InstructionBlock::new(instructions, rip);
    match BlockEncoder::encode(bitness, block, BlockEncoderOptions::RETURN_RELOC_INFOS) {
        Ok(result) => Ok(result.code_buffer),
        Err(error) => Err(error),
    }
}

/// The register that the assembler has for `reg`: class 0 holds the 32-bit
/// registers, class 1 the 64-bit ones.
pub open spec fn register_for(reg: Reg) -> Option<Register> {
    if reg == Reg(0, 0) {
        Some(Register::EAX)
    } else if reg == Reg(0, 1) {
        Some(Register::ECX)
    } else if reg == Reg(1, 4) {
        Some(Register::RSP)
    } else if reg == Reg(1, 5) {
        Some(Register::RBP)
    } else {
        None
    }
}

/// The register that the assembler has for `reg`.
pub fn register_of(reg: Reg) -> (register: Option<Register>)
    ensures
        register == register_for(reg),
{
    if reg.0 == 0 && reg.1 == 0 {
        Some(Register::EAX)
    } else if reg.0 == 0 && reg.1 == 1 {
        Some(Register::ECX)
    } else if reg.0 == 1 && reg.1 == 4 {
        Some(Register::RSP)
    } else if reg.0 == 1 && reg.1 == 5 {
        Some(Register::RBP)
    } else {
        None
    }
}

/// The physical register that operand `at` of `inst` names.
pub open spec fn register_at(inst: MachInst, at: int) -> Result<Register, Fault> {
    if 0 <= at < inst.operands.len() {
        match inst.operands[at].data {
            OperandData::Reg(reg) => match register_for(reg) {
                Some(register) => Ok(register),
                None => Err(Fault::Register),
            },
            _ => Err(Fault::Operand),
        }
    } else {
        Err(Fault::Operand)
    }
}

/// The 32-bit literal that operand `at` of `inst` holds.
pub open spec fn literal_at(inst: MachInst, at: int) -> Result<i32, Fault> {
    if 0 <= at < inst.operands.len() {
        match inst.operands[at].data {
            OperandData::Int32(value) => Ok(value),
            _ => Err(Fault::Operand),
        }
    } else {
        Err(Fault::Operand)
    }
}

/// What the encoder made, or that it refused.
pub open spec fn accepted(made: Option<IcedInst>) -> Result<IcedInst, Fault> {
    match made {
        Some(inst) => Ok(inst),
        None => Err(Fault::Rejected),
    }
}

/// The encoder's instruction for the machine instruction `inst`. The
/// operands are read from first to last, and the first that does not fit
/// decides the fault.
pub open spec fn encoding(inst: MachInst) -> Result<IcedInst, Fault> {
    match inst.opcode {
        Opcode::MOVri32 => match register_at(inst, 0) {
            Err(fault) => Err(fault),
            Ok(dst) => match literal_at(inst, 1) {
                Err(fault) => Err(fault),
                Ok(value) => accepted(immediate(Code::MovR32Imm32, register_value(dst), value)),
            },
        },
        Opcode::MOVrr64 => match register_at(inst, 0) {
            Err(fault) => Err(fault),
            Ok(dst) => match register_at(inst, 1) {
                Err(fault) => Err(fault),
                Ok(src) => accepted(
                    binary(Code::MovRm64R64, register_value(dst), register_value(src)),
                ),
            },
        },
        Opcode::PUSH64 => match register_at(inst, 0) {
            Err(fault) => Err(fault),
            Ok(register) => accepted(unary(Code::PushR64, register_value(register))),
        },
        Opcode::POP64 => match register_at(inst, 0) {
            Err(fault) => Err(fault),
            Ok(register) => accepted(unary(Code::PopR64, register_value(register))),
        },
        Opcode::RET => Ok(nullary(Code::Retnq)),
        _ => Err(Fault::Opcode),
    }
}

/// The encodings of the first `n` instructions of `insts`, or the position
/// and the fault of the first among them that has none.
pub open spec fn encodings(insts: Seq<MachInst>, n: nat) -> Result<Seq<IcedInst>, (usize, Fault)>
    decreases n,
{
    if n == 0 || n > insts.len() {
        Ok(Seq::empty())
    } else {
        match encodings(insts, (n - 1) as nat) {
            Err(failure) => Err(failure),
            Ok(list) => match encoding(insts[n - 1]) {
                Ok(inst) => Ok(list.push(inst)),
                Err(fault) => Err(((n - 1) as usize, fault)),
            },
        }
    }
}

/// A failure among the first `n` instructions is the failure of any longer
/// prefix.
pub proof fn lemma_encodings_failure_stays(insts: Seq<MachInst>, n: nat, m: nat)
    requires
        n <= m <= insts.len(),
        encodings(insts, n) is Err,
    ensures
        encodings(insts, m) == encodings(insts, n),
    decreases m,
{
    if n < m {
        lemma_encodings_failure_stays(insts, n, (m - 1) as nat);
    }
}

/// The physical register that operand `at` of `inst` names.
fn operand_register(inst: &InstructionData, at: usize) -> (register: Result<Register, Fault>)
    ensures
        register == register_at(inst@, at as int),
{
    if at < inst.operands.len() {
        match inst.operands[at].data {
            OperandData::Reg(reg) => match register_of(reg) {
                Some(register) => Ok(register),
                None => Err(Fault::Register),
            },
            _ => Err(Fault::Operand),
        }
    } else {
        Err(Fault::Operand)
    }
}

/// The 32-bit literal that operand `at` of `inst` holds.
fn operand_literal(inst: &InstructionData, at: usize) -> (value: Result<i32, Fault>)
    ensures
        value == literal_at(inst@, at as int),
{
    if at < inst.operands.len() {
        match inst.operands[at].data {
            OperandData::Int32(value) => Ok(value),
            _ => Err(Fault::Operand),
        }
    } else {
        Err(Fault::Operand)
    }
}

/// What the encoder made, or that it refused.
pub fn accept(made: Result<IcedInst, IcedError>) -> (inst: Result<IcedInst, Fault>)
    ensures
        inst == match made {
            Ok(made) => Ok::<IcedInst, Fault>(made),
            Err(_) => Err(Fault::Rejected),
        },
{
    match made {
        Ok(made) => Ok(made),
        Err(_) => Err(Fault::Rejected),
    }
}

/// The encoder's instruction for the machine instruction `inst`.
pub fn encode_instruction(inst: &InstructionData) -> (made: Result<IcedInst, Fault>)
    ensures
        made == encoding(inst@),
{
    match inst.opcode {
        Opcode::MOVri32 => {
            let dst = operand_register(inst, 0)?;
            let value = operand_literal(inst, 1)?;
            accept(with_immediate(Code::MovR32Imm32, iced_register(dst), value))
        },
        Opcode::MOVrr64 => {
            let dst = operand_register(inst, 0)?;
            let src = operand_register(inst, 1)?;
            accept(with_registers(Code::MovRm64R64, iced_register(dst), iced_register(src)))
        },
        Opcode::PUSH64 => {
            let register = operand_register(inst, 0)?;
            accept(with_register(Code::PushR64, iced_register(register)))
        },
        Opcode::POP64 => {
            let register = operand_register(inst, 0)?;
            accept(with_register(Code::PopR64, iced_register(register)))
        },
        Opcode::RET => Ok(with_code(Code::Retnq)),
        _ => Err(Fault::Opcode),
    }
}

/// The state of the assembler: the next free label, the instructions made so
/// far, and the label of each function assembled so far.
pub struct Context {
    label_id: u64,
    instructions: Vec<IcedInst>,
    funcs_label: FxHashMap<usize, u64>,
}

/// The mathematical value of a `Context`.
pub struct ContextView {
    /// The label that `new_label` hands out next.
    pub next_label: u64,
    /// The instructions made so far, in order.
    pub listing: Seq<IcedInst>,
    /// The label of each function, by the function's position.
    pub labels: Map<usize, u64>,
}

impl View for Context {
    type V = ContextView;

    closed spec fn view(&self) -> ContextView {
        ContextView {
            next_label: self.label_id,
            listing: self.instructions@,
            labels: self.funcs_label@,
        }
    }
}

impl ContextView {
    /// The state of an assembler that has done nothing: labels start at 1.
    pub open spec fn initial() -> ContextView {
        ContextView { next_label: 1, listing: Seq::empty(), labels: Map::empty() }
    }

    /// The state after the function `func`, whose instructions are `insts`,
    /// was assembled: it got the next label and its encodings follow the
    /// listing. Where a label or an encoding is wanting, the failure.
    pub open spec fn assembled(self, func: FuncId, insts: Seq<MachInst>) -> Result<
        ContextView,
        AssembleError,
    > {
        match encodings(insts, insts.len()) {
            Err((at, fault)) => Err(AssembleError::Instruction(func, at, fault)),
            Ok(list) => if self.next_label == u64::MAX {
                Err(AssembleError::Labels(func))
            } else {
                Ok(
                    ContextView {
                        next_label: (self.next_label + 1) as u64,
                        listing: self.listing + list,
                        labels: self.labels.insert(func.0, self.next_label),
                    },
                )
            },
        }
    }

    /// The state after the first `n` of `funcs` were assembled in order,
    /// each under its position, and the failure that stopped the work, if
    /// one did. A function that fails leaves the state as it found it.
    pub open spec fn assembled_all(self, funcs: Seq<Seq<MachInst>>, n: nat) -> (
        ContextView,
        Option<AssembleError>,
    )
        decreases n,
    {
        if n == 0 || n > funcs.len() {
            (self, None)
        } else {
            let (before, failure) = self.assembled_all(funcs, (n - 1) as nat);
            if failure is Some {
                (before, failure)
            } else {
                match before.assembled(FuncId((n - 1) as usize), funcs[n - 1]) {
                    Ok(after) => (after, None),
                    Err(error) => (before, Some(error)),
                }
            }
        }
    }
}

/// Once a function has failed, assembling stops: a longer prefix ends in
/// the same state with the same failure.
pub proof fn lemma_assembling_stops(ctx: ContextView, funcs: Seq<Seq<MachInst>>, n: nat, m: nat)
    requires
        n <= m <= funcs.len(),
        ctx.assembled_all(funcs, n).1 is Some,
    ensures
        ctx.assembled_all(funcs, m) == ctx.assembled_all(funcs, n),
    decreases m,
{
    if n < m {
        lemma_assembling_stops(ctx, funcs, n, (m - 1) as nat);
    }
}

/// The instructions of each function of `funcs`.
pub open spec fn listings(funcs: Seq<Function>) -> Seq<Seq<MachInst>> {
    Seq::new(funcs.len(), |i: int| inst_views(funcs[i].insts@))
}

impl Default for Context {
    fn default() -> (ctx: Context)
        ensures
            ctx@ == ContextView::initial(),
    {
        Context { label_id: 1, instructions: Vec::new(), funcs_label: FxHashMap::default() }
    }
}

impl Context {
    /// Hands out the next label.
    pub fn new_label(&mut self) -> (label: u64)
        requires
            old(self)@.next_label < u64::MAX,
        ensures
            label == old(self)@.next_label,
            final(self)@ == (ContextView { next_label: (label + 1) as u64, ..old(self)@ }),
    {
        let id = self.label_id;
        self.label_id = id + 1;
        id
    }

    /// Records `label` as the label of `func`.
    pub fn add_func_label(&mut self, func: FuncId, label: u64)
        ensures
            final(self)@ == (ContextView {
                labels: old(self)@.labels.insert(func.0, label),
                ..old(self)@
            }),
    {
        map_insert(&mut self.funcs_label, func.0, label);
    }

    /// Puts `inst` at the end of the listing.
    pub fn add_instruction(&mut self, inst: IcedInst)
        ensures
            final(self)@ == (ContextView { listing: old(self)@.listing.push(inst), ..old(self)@ }),
    {
        self.instructions.push(inst);
    }

    /// The label of `func`, if `func` was assembled.
    pub fn label_of(&self, func: FuncId) -> (label: Option<u64>)
        ensures
            label == if self@.labels.contains_key(func.0) {
                Some(self@.labels[func.0])
            } else {
                None
            },
    {
        match map_get(&self.funcs_label, func.0) {
            Some(label) => Some(*label),
            None => None,
        }
    }

    /// How many instructions the listing holds.
    pub fn instruction_count(&self) -> (n: usize)
        ensures
            n == self@.listing.len(),
    {
        self.instructions.len()
    }

    /// Running a function is not available here: the result is always
    /// `None`.
    pub fn run_function(&self, func_id: FuncId) -> (outcome: Option<()>)
        ensures
            outcome is None,
    {
        let _ = self.label_of(func_id)?;
        None
    }

    /// The bytes of the listing, laid out from `TARGET_RIP` for a machine of
    /// `BITNESS` bits.
    pub fn encode(&self) -> (bytes: Result<Vec<u8>, AssembleError>)
        ensures
            match bytes {
                Ok(code) => machine_code(BITNESS, self@.listing, TARGET_RIP) == Some(code@),
                Err(error) => error == AssembleError::Encoder && machine_code(
                    BITNESS,
                    self@.listing,
                    TARGET_RIP,
                ) is None,
            },
    {
        match encode_block(BITNESS, &self.instructions, TARGET_RIP) {
            Ok(code) => Ok(code),
            Err(_) => Err(AssembleError::Encoder),
        }
    }
}

/// Assembles one function: `func` gets the next label and the encodings of
/// its instructions follow the listing. On a failure `ctx` is as it was.
pub fn assemble_function(ctx: &mut Context, func_id: FuncId, func: &Function) -> (done: Result<
    (),
    AssembleError,
>)
    ensures
        match old(ctx)@.assembled(func_id, inst_views(func.insts@)) {
            Ok(after) => done is Ok && final(ctx)@ == after,
            Err(error) => done == Err::<(), AssembleError>(error) && final(ctx)@ == old(ctx)@,
        },
{
    let ghost insts = inst_views(func.insts@);
    let mut made: Vec<IcedInst> = Vec::new();
    let mut i: usize = 0;
    while i < func.insts.len()
        invariant
            i <= func.insts.len(),
            insts == inst_views(func.insts@),
            encodings(insts, i as nat) == Ok::<Seq<IcedInst>, (usize, Fault)>(made@),
        decreases func.insts.len() - i,
    {
        match encode_instruction(&func.insts[i]) {
            Ok(inst) => made.push(inst),
            Err(fault) => {
                proof {
                    assert(encodings(insts, (i + 1) as nat) == Err::<Seq<IcedInst>, (usize, Fault)>(
                        (i, fault),
                    ));
                    lemma_encodings_failure_stays(insts, (i + 1) as nat, insts.len());
                }
                return Err(AssembleError::Instruction(func_id, i, fault));
            },
        }
        i += 1;
    }
    if ctx.label_id == u64::MAX {
        return Err(AssembleError::Labels(func_id));
    }
    let label = ctx.new_label();
    ctx.add_func_label(func_id, label);
    let ghost before = ctx@.listing;
    let ghost list = made@;
    ctx.instructions.append(&mut made);
    assert(ctx@.listing == before + list);
    Ok(())
}

/// Assembles the functions of `module` in order, each under its position,
/// and lays the listing out as bytes. Assembling stops at the first
/// function that fails.
pub fn assemble(ctx: &mut Context, module: &Vec<Function>) -> (bytes: Result<
    Vec<u8>,
    AssembleError,
>)
    ensures
        final(ctx)@ == old(ctx)@.assembled_all(listings(module@), module@.len()).0,
        match old(ctx)@.assembled_all(listings(module@), module@.len()).1 {
            Some(error) => bytes == Err::<Vec<u8>, AssembleError>(error),
            None => match machine_code(BITNESS, final(ctx)@.listing, TARGET_RIP) {
                Some(code) => bytes is Ok && bytes->Ok_0@ == code,
                None => bytes == Err::<Vec<u8>, AssembleError>(AssembleError::Encoder),
            },
        },
{
    let ghost funcs = listings(module@);
    let ghost start = ctx@;
    let mut i: usize = 0;
    while i < module.len()
        invariant
            i <= module.len(),
            funcs == listings(module@),
            start == old(ctx)@,
            start.assembled_all(funcs, i as nat) == (ctx@, None::<AssembleError>),
        decreases module.len() - i,
    {
        match assemble_function(ctx, FuncId(i), &module[i]) {
            Ok(()) => {},
            Err(error) => {
                proof {
                    assert(funcs[i as int] == inst_views(module[i as int].insts@));
                    assert(start.assembled_all(funcs, (i + 1) as nat) == (ctx@, Some(error)));
                    lemma_assembling_stops(start, funcs, (i + 1) as nat, funcs.len());
                }
                return Err(error);
            },
        }
        assert(funcs[i as int] == inst_views(module[i as int].insts@));
        i += 1;
    }
    ctx.encode()
}

} // verus!
