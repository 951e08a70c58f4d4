//! Instruction selection for x86-64: one rule for each kind of instruction
//! of the intermediate representation.
//!
//! Each rule is stated twice: as a spec function from the state before to
//! the state after (or the reason why there is no rule), and as the
//! executable function that is proved to compute it.

use crate::codegen::lower::{
    lemma_grows_keeps_operands, lemma_grows_twice, Env, LowerState, LoweringContext,
};
use crate::codegen::register::VReg;
use crate::codegen::slot::SlotId;
use crate::codegen::target::x86_64::instruction::{
    jump_for, jump_opcode, InstructionData, Label, MachInst, MemoryOperand, Opcode, Operand,
    OperandData, Role,
};
use crate::codegen::target::x86_64::register::{return_register, GR32};
use crate::error::{Error, Reason};
use crate::ir::function::basic_block::BasicBlockId;
use crate::ir::function::instruction::{
    ICmpCond, Instruction, InstructionId, Opcode as IrOpcode, Operand as IrOperand,
};
use crate::ir::function::layout::at;
use crate::ir::types::{TypeId, TypeView};
use crate::ir::value::{ConstantData, ConstantInt, Value, ValueId};
use vstd::prelude::*;

verus! {

/// An operand that is read.
pub open spec fn input(data: OperandData) -> Operand {
    Operand { data, role: Role::Input }
}

/// An operand that is written.
pub open spec fn output(data: OperandData) -> Operand {
    Operand { data, role: Role::Output }
}

/// An operand that is read and written.
pub open spec fn input_output(data: OperandData) -> Operand {
    Operand { data, role: Role::InputOutput }
}

/// The value that `id` names.
pub open spec fn value_at(env: Env, id: ValueId) -> Option<Value> {
    at(env.values, id.0 as int)
}

/// The source operand for the value `id`: the virtual register of an
/// instruction result, or a 32-bit literal as an immediate.
pub open spec fn resolve(env: Env, s: LowerState, id: ValueId) -> Result<
    (LowerState, OperandData),
    Reason,
> {
    match value_at(env, id) {
        None => Err(Reason::UnknownValue),
        Some(Value::Instruction(inst)) => match s.materialize(env, inst) {
            Ok((later, vreg)) => Ok((later, OperandData::VReg(vreg))),
            Err(reason) => Err(reason),
        },
        Some(Value::Constant(ConstantData::Int(ConstantInt::Int32(imm)))) => Ok(
            (s, OperandData::Int32(imm)),
        ),
        Some(_) => Err(Reason::Operand),
    }
}

/// The stack slot that the address `id` stands for: `id` must be the result
/// of an instruction for which a slot is recorded.
pub open spec fn slot_at(env: Env, s: LowerState, id: ValueId) -> Result<SlotId, Reason> {
    match value_at(env, id) {
        None => Err(Reason::UnknownValue),
        Some(Value::Instruction(inst)) => if s.slot_of.contains_key(inst.0) {
            Ok(s.slot_of[inst.0])
        } else {
            Err(Reason::Address)
        },
        Some(_) => Err(Reason::Address),
    }
}

/// The label of `block`.
pub open spec fn label_at(s: LowerState, block: BasicBlockId) -> Result<Label, Reason> {
    if s.labels.contains_key(block.0) {
        Ok(s.labels[block.0])
    } else {
        Err(Reason::UnknownBlock)
    }
}

/// `alloca`: a new stack slot, recorded for the instruction. Nothing is
/// emitted.
pub open spec fn rule_alloca(s: LowerState, id: InstructionId, ty: TypeId) -> Result<
    LowerState,
    Reason,
> {
    Ok(s.add_slot(id, ty))
}

/// The operands of a `Phi` for the first `n` incoming pairs: for each pair
/// the value, then the label of the predecessor.
pub open spec fn phi_operands(
    env: Env,
    s: LowerState,
    incoming: Seq<(ValueId, BasicBlockId)>,
    n: nat,
) -> Result<(LowerState, Seq<Operand>), Reason>
    decreases n,
{
    if n == 0 {
        Ok((s, Seq::empty()))
    } else {
        match phi_operands(env, s, incoming, (n - 1) as nat) {
            Err(reason) => Err(reason),
            Ok((s1, operands)) => match resolve(env, s1, incoming[n - 1].0) {
                Err(reason) => Err(reason),
                Ok((s2, data)) => match label_at(s2, incoming[n - 1].1) {
                    Err(reason) => Err(reason),
                    Ok(label) => Ok(
                        (s2, operands.push(input(data)).push(input(OperandData::Block(label)))),
                    ),
                },
            },
        }
    }
}

/// `phi`: one `Phi` whose operands are the output register and then, for
/// each predecessor in order, the incoming value and the predecessor's
/// label.
pub open spec fn rule_phi(
    env: Env,
    s: LowerState,
    id: InstructionId,
    ty: TypeId,
    incoming: Seq<(ValueId, BasicBlockId)>,
) -> Result<LowerState, Reason> {
    let (s0, out) = s.output_vreg_for(id, ty);
    match phi_operands(env, s0, incoming, incoming.len()) {
        Err(reason) => Err(reason),
        Ok((s1, operands)) => Ok(
            s1.emit(
                MachInst {
                    opcode: Opcode::Phi,
                    operands: seq![output(OperandData::VReg(out))] + operands,
                },
            ),
        ),
    }
}

/// `load`: a move from the stack slot of the address into the output
/// register. The loaded type must be the 32-bit integer.
pub open spec fn rule_load(
    env: Env,
    s: LowerState,
    id: InstructionId,
    ty: TypeId,
    addr: ValueId,
) -> Result<LowerState, Reason> {
    match slot_at(env, s, addr) {
        Err(reason) => Err(reason),
        Ok(slot) => if at(env.types, ty.0 as int) != Some(TypeView::Int(32)) {
            Err(Reason::Type)
        } else {
            let (s1, out) = s.output_vreg_for(id, ty);
            Ok(
                s1.emit(
                    MachInst {
                        opcode: Opcode::MOVrm32,
                        operands: seq![
                            output(OperandData::VReg(out)),
                            input(OperandData::Mem(MemoryOperand::Slot(slot))),
                        ],
                    },
                ),
            )
        },
    }
}

/// The move that stores `data` to memory: from a register or of an
/// immediate.
pub open spec fn store_opcode(data: OperandData) -> Opcode {
    match data {
        OperandData::Int32(_) => Opcode::MOVmi32,
        _ => Opcode::MOVmr32,
    }
}

/// `store`: a move of the value, a register or an immediate, into the stack
/// slot of the address.
pub open spec fn rule_store(env: Env, s: LowerState, value: ValueId, addr: ValueId) -> Result<
    LowerState,
    Reason,
> {
    match slot_at(env, s, addr) {
        Err(reason) => Err(reason),
        Ok(slot) => match resolve(env, s, value) {
            Err(reason) => Err(reason),
            Ok((s1, data)) => Ok(
                s1.emit(
                    MachInst {
                        opcode: store_opcode(data),
                        operands: seq![
                            output(OperandData::Mem(MemoryOperand::Slot(slot))),
                            input(data),
                        ],
                    },
                ),
            ),
        },
    }
}

/// The addition whose second operand is `data`: a register or an immediate.
pub open spec fn add_opcode(data: OperandData) -> Opcode {
    match data {
        OperandData::Int32(_) => Opcode::ADDri32,
        _ => Opcode::ADDrr32,
    }
}

/// Integer addition: a copy of the left operand, which must be an
/// instruction result, into the output register, and then the addition of
/// the right operand to the output register in place.
pub open spec fn rule_add(
    env: Env,
    s: LowerState,
    id: InstructionId,
    ty: TypeId,
    lhs: ValueId,
    rhs: ValueId,
) -> Result<LowerState, Reason> {
    match value_at(env, lhs) {
        None => Err(Reason::UnknownValue),
        Some(Value::Instruction(left)) => match s.materialize(env, left) {
            Err(reason) => Err(reason),
            Ok((s1, left_reg)) => {
                let (s2, out) = s1.output_vreg_for(id, ty);
                match resolve(env, s2, rhs) {
                    Err(reason) => Err(reason),
                    Ok((s3, right)) => Ok(
                        s3.emit(
                            MachInst {
                                opcode: Opcode::MOVrr32,
                                operands: seq![
                                    output(OperandData::VReg(out)),
                                    input(OperandData::VReg(left_reg)),
                                ],
                            },
                        ).emit(
                            MachInst {
                                opcode: add_opcode(right),
                                operands: seq![
                                    input_output(OperandData::VReg(out)),
                                    input(right),
                                ],
                            },
                        ),
                    ),
                }
            },
        },
        Some(_) => Err(Reason::Operand),
    }
}

/// `br`: one jump to the label of the target.
pub open spec fn rule_br(s: LowerState, block: BasicBlockId) -> Result<LowerState, Reason> {
    match label_at(s, block) {
        Err(reason) => Err(reason),
        Ok(label) => Ok(
            s.emit(
                MachInst { opcode: Opcode::JMP, operands: seq![input(OperandData::Block(label))] },
            ),
        ),
    }
}

/// The comparison that produces the condition `arg`: its predicate and its
/// two operands.
pub open spec fn comparison_at(env: Env, arg: ValueId) -> Result<
    (ICmpCond, ValueId, ValueId),
    Reason,
> {
    match value_at(env, arg) {
        None => Err(Reason::UnknownValue),
        Some(Value::Instruction(inst)) => match at(env.insts, inst.0 as int) {
            None => Err(Reason::UnknownInstruction),
            Some(producer) => match producer.operand {
                IrOperand::ICmp { cond, lhs, rhs, .. } => Ok((cond, lhs, rhs)),
                _ => Err(Reason::Condition),
            },
        },
        Some(_) => Err(Reason::Condition),
    }
}

/// The two sides of a comparison that has a rule: an instruction result on
/// the left and a 32-bit literal on the right.
pub open spec fn comparison_sides(env: Env, lhs: ValueId, rhs: ValueId) -> Result<
    (InstructionId, i32),
    Reason,
> {
    match (value_at(env, lhs), value_at(env, rhs)) {
        (None, _) => Err(Reason::UnknownValue),
        (_, None) => Err(Reason::UnknownValue),
        (
            Some(Value::Instruction(left)),
            Some(Value::Constant(ConstantData::Int(ConstantInt::Int32(imm)))),
        ) => Ok((left, imm)),
        _ => Err(Reason::Operand),
    }
}

/// `condbr` on the result of an integer comparison: the comparison, the
/// conditional jump of its predicate to the label of the true block, and a
/// jump to the label of the false block, in this order.
pub open spec fn rule_condbr(
    env: Env,
    s: LowerState,
    arg: ValueId,
    true_block: BasicBlockId,
    false_block: BasicBlockId,
) -> Result<LowerState, Reason> {
    match comparison_at(env, arg) {
        Err(reason) => Err(reason),
        Ok((cond, lhs, rhs)) => match comparison_sides(env, lhs, rhs) {
            Err(reason) => Err(reason),
            Ok((left, imm)) => match jump_for(cond) {
                None => Err(Reason::Predicate),
                Some(jump) => match (label_at(s, true_block), label_at(s, false_block)) {
                    (Err(reason), _) => Err(reason),
                    (_, Err(reason)) => Err(reason),
                    (Ok(true_label), Ok(false_label)) => match s.materialize(env, left) {
                        Err(reason) => Err(reason),
                        Ok((s1, left_reg)) => Ok(
                            s1.emit(
                                MachInst {
                                    opcode: Opcode::CMPri32,
                                    operands: seq![
                                        input(OperandData::VReg(left_reg)),
                                        input(OperandData::Int32(imm)),
                                    ],
                                },
                            ).emit(
                                MachInst {
                                    opcode: jump,
                                    operands: seq![input(OperandData::Block(true_label))],
                                },
                            ).emit(
                                MachInst {
                                    opcode: Opcode::JMP,
                                    operands: seq![input(OperandData::Block(false_label))],
                                },
                            ),
                        ),
                    },
                },
            },
        },
    }
}

/// The move that brings `data` into a register: of an immediate or from a
/// register.
pub open spec fn move_opcode(data: OperandData) -> Opcode {
    match data {
        OperandData::Int32(_) => Opcode::MOVri32,
        _ => Opcode::MOVrr32,
    }
}

/// `ret` with a value: a move of the value, an immediate or a register,
/// into the return register, and then the return.
pub open spec fn rule_ret(env: Env, s: LowerState, val: Option<ValueId>) -> Result<
    LowerState,
    Reason,
> {
    match val {
        None => Err(Reason::RetVoid),
        Some(value) => match resolve(env, s, value) {
            Err(reason) => Err(reason),
            Ok((s1, data)) => Ok(
                s1.emit(
                    MachInst {
                        opcode: move_opcode(data),
                        operands: seq![output(OperandData::Reg(return_register())), input(data)],
                    },
                ).emit(MachInst { opcode: Opcode::RET, operands: Seq::empty() }),
            ),
        },
    }
}

/// The id of an instruction that needs one to record its result.
pub open spec fn own_id(inst: Instruction) -> Result<InstructionId, Reason> {
    match inst.id {
        Some(id) => Ok(id),
        None => Err(Reason::Detached),
    }
}

/// The rule for `inst`, by the kind of its operand.
///
/// An integer comparison emits nothing where it stands: it is lowered with
/// the conditional branch that consumes it. An integer operation other than
/// addition has no rule, nor has an invalid instruction.
pub open spec fn rule_for(env: Env, s: LowerState, inst: Instruction) -> Result<
    LowerState,
    Reason,
> {
    match inst.operand {
        IrOperand::Alloca { ty, .. } => match own_id(inst) {
            Err(reason) => Err(reason),
            Ok(id) => rule_alloca(s, id, ty),
        },
        IrOperand::Phi { ty, incoming } => match own_id(inst) {
            Err(reason) => Err(reason),
            Ok(id) => rule_phi(env, s, id, ty, incoming@),
        },
        IrOperand::Load { ty, addr, .. } => match own_id(inst) {
            Err(reason) => Err(reason),
            Ok(id) => rule_load(env, s, id, ty, addr),
        },
        IrOperand::Store { value, addr, .. } => rule_store(env, s, value, addr),
        IrOperand::IntBinary { ty, lhs, rhs, .. } => if inst.opcode != IrOpcode::Add {
            Err(Reason::Operation)
        } else {
            match own_id(inst) {
                Err(reason) => Err(reason),
                Ok(id) => rule_add(env, s, id, ty, lhs, rhs),
            }
        },
        IrOperand::ICmp { .. } => Ok(s),
        IrOperand::Br { block } => rule_br(s, block),
        IrOperand::CondBr { arg, true_block, false_block } => rule_condbr(
            env,
            s,
            arg,
            true_block,
            false_block,
        ),
        IrOperand::Ret { val, .. } => rule_ret(env, s, val),
        IrOperand::Invalid => Err(Reason::NoRule),
    }
}

/// What lowering `inst` in state `s` gives: the state after, or the error,
/// which names the instruction, its kind and the reason.
pub open spec fn lower_spec(env: Env, s: LowerState, inst: Instruction) -> Result<
    LowerState,
    Error,
> {
    match rule_for(env, s, inst) {
        Ok(later) => Ok(later),
        Err(reason) => Err(Error::Todo { inst: inst.id, kind: inst.operand.kind_of(), reason }),
    }
}

/// What a rule's executable function owes: on success the state that the
/// rule gives; on failure the rule's reason, no instruction emitted, and
/// nothing lost of what was recorded.
pub open spec fn rule_outcome(
    before: LowerState,
    after: LowerState,
    expected: Result<LowerState, Reason>,
    result: Result<(), Reason>,
) -> bool {
    match expected {
        Ok(state) => result is Ok && after == state,
        Err(reason) => result == Err::<(), Reason>(reason) && after.insts == before.insts
            && before.grows_to(after),
    }
}

/// The source operand for the value `id`, as `resolve` defines it. Nothing
/// changes when it fails.
pub fn resolve_value(ctx: &mut LoweringContext, id: ValueId) -> (result: Result<
    OperandData,
    Reason,
>)
    requires
        old(ctx).wf(),
    ensures
        final(ctx).wf(),
        final(ctx).env() == old(ctx).env(),
        final(ctx).data() == old(ctx).data(),
        old(ctx)@.grows_to(final(ctx)@),
        final(ctx)@.insts == old(ctx)@.insts,
        match resolve(old(ctx).env(), old(ctx)@, id) {
            Ok((state, data)) => result == Ok::<OperandData, Reason>(data) && final(ctx)@ == state
                && final(ctx)@.operand_ok(input(data)),
            Err(reason) => result == Err::<OperandData, Reason>(reason) && final(ctx)@ == old(
                ctx,
            )@,
        },
{
    match ctx.value(id) {
        None => Err(Reason::UnknownValue),
        Some(Value::Instruction(inst)) => match ctx.materialize(inst) {
            Ok(vreg) => Ok(OperandData::VReg(vreg)),
            Err(reason) => Err(reason),
        },
        Some(Value::Constant(ConstantData::Int(ConstantInt::Int32(imm)))) => Ok(
            OperandData::Int32(imm),
        ),
        Some(_) => Err(Reason::Operand),
    }
}

/// The stack slot that the address `id` stands for, as `slot_at` defines
/// it.
pub fn slot_of_address(ctx: &LoweringContext, id: ValueId) -> (result: Result<SlotId, Reason>)
    requires
        ctx.wf(),
    ensures
        result == slot_at(ctx.env(), ctx@, id),
        result is Ok ==> (result->Ok_0).0 < ctx@.slots.len(),
{
    match ctx.value(id) {
        None => Err(Reason::UnknownValue),
        Some(Value::Instruction(inst)) => match ctx.slot_for(inst) {
            Some(slot) => Ok(slot),
            None => Err(Reason::Address),
        },
        Some(_) => Err(Reason::Address),
    }
}

/// The label of `block`, as `label_at` defines it.
pub fn label_of_block(ctx: &LoweringContext, block: BasicBlockId) -> (result: Result<
    Label,
    Reason,
>)
    ensures
        result == label_at(ctx@, block),
        result is Ok ==> ctx@.has_label(result->Ok_0),
{
    match ctx.label_for(block) {
        Some(label) => Ok(label),
        None => Err(Reason::UnknownBlock),
    }
}

/// Lowers an `alloca`.
pub fn lower_alloca(ctx: &mut LoweringContext, id: InstructionId, ty: TypeId) -> (result: Result<
    (),
    Reason,
>)
    requires
        old(ctx).wf(),
    ensures
        final(ctx).wf(),
        final(ctx).env() == old(ctx).env(),
        final(ctx).data() == old(ctx).data(),
        rule_outcome(old(ctx)@, final(ctx)@, rule_alloca(old(ctx)@, id, ty), result),
{
    ctx.add_slot(id, ty);
    Ok(())
}

/// Lowers a `br`.
pub fn lower_br(ctx: &mut LoweringContext, block: BasicBlockId) -> (result: Result<(), Reason>)
    requires
        old(ctx).wf(),
    ensures
        final(ctx).wf(),
        final(ctx).env() == old(ctx).env(),
        final(ctx).data() == old(ctx).data(),
        rule_outcome(old(ctx)@, final(ctx)@, rule_br(old(ctx)@, block), result),
{
    let label = match label_of_block(ctx, block) {
        Ok(label) => label,
        Err(reason) => {
            return Err(reason);
        },
    };
    let inst = InstructionData {
        opcode: Opcode::JMP,
        operands: vec![Operand::input(OperandData::Block(label))],
    };
    assert(inst@.operands =~= seq![input(OperandData::Block(label))]);
    ctx.emit(inst);
    Ok(())
}

/// Lowers a `load`.
pub fn lower_load(ctx: &mut LoweringContext, id: InstructionId, ty: TypeId, addr: ValueId) -> (result:
    Result<(), Reason>)
    requires
        old(ctx).wf(),
    ensures
        final(ctx).wf(),
        final(ctx).env() == old(ctx).env(),
        final(ctx).data() == old(ctx).data(),
        rule_outcome(
            old(ctx)@,
            final(ctx)@,
            rule_load(old(ctx).env(), old(ctx)@, id, ty, addr),
            result,
        ),
{
    let slot = match slot_of_address(ctx, addr) {
        Ok(slot) => slot,
        Err(reason) => {
            return Err(reason);
        },
    };
    if !ctx.is_i32(ty) {
        return Err(Reason::Type);
    }
    let out = ctx.output_vreg_for(id, ty);
    let inst = InstructionData {
        opcode: Opcode::MOVrm32,
        operands: vec![
            Operand::output(OperandData::VReg(out)),
            Operand::input(OperandData::Mem(MemoryOperand::Slot(slot))),
        ],
    };
    assert(inst@.operands =~= seq![
        output(OperandData::VReg(out)),
        input(OperandData::Mem(MemoryOperand::Slot(slot))),
    ]);
    ctx.emit(inst);
    Ok(())
}

/// Lowers a `store`.
pub fn lower_store(ctx: &mut LoweringContext, value: ValueId, addr: ValueId) -> (result: Result<
    (),
    Reason,
>)
    requires
        old(ctx).wf(),
    ensures
        final(ctx).wf(),
        final(ctx).env() == old(ctx).env(),
        final(ctx).data() == old(ctx).data(),
        rule_outcome(
            old(ctx)@,
            final(ctx)@,
            rule_store(old(ctx).env(), old(ctx)@, value, addr),
            result,
        ),
{
    let slot = match slot_of_address(ctx, addr) {
        Ok(slot) => slot,
        Err(reason) => {
            return Err(reason);
        },
    };
    let data = match resolve_value(ctx, value) {
        Ok(data) => data,
        Err(reason) => {
            return Err(reason);
        },
    };
    let opcode = match data {
        OperandData::Int32(_) => Opcode::MOVmi32,
        _ => Opcode::MOVmr32,
    };
    let inst = InstructionData {
        opcode,
        operands: vec![
            Operand::output(OperandData::Mem(MemoryOperand::Slot(slot))),
            Operand::input(data),
        ],
    };
    assert(inst@.operands =~= seq![
        output(OperandData::Mem(MemoryOperand::Slot(slot))),
        input(data),
    ]);
    ctx.emit(inst);
    Ok(())
}

/// Lowers an integer addition.
pub fn lower_add(
    ctx: &mut LoweringContext,
    id: InstructionId,
    ty: TypeId,
    lhs: ValueId,
    rhs: ValueId,
) -> (result: Result<(), Reason>)
    requires
        old(ctx).wf(),
    ensures
        final(ctx).wf(),
        final(ctx).env() == old(ctx).env(),
        final(ctx).data() == old(ctx).data(),
        rule_outcome(
            old(ctx)@,
            final(ctx)@,
            rule_add(old(ctx).env(), old(ctx)@, id, ty, lhs, rhs),
            result,
        ),
{
    let left = match ctx.value(lhs) {
        None => {
            return Err(Reason::UnknownValue);
        },
        Some(Value::Instruction(left)) => left,
        Some(_) => {
            return Err(Reason::Operand);
        },
    };
    let left_reg = match ctx.materialize(left) {
        Ok(vreg) => vreg,
        Err(reason) => {
            return Err(reason);
        },
    };
    let ghost s1 = ctx@;
    let out = ctx.output_vreg_for(id, ty);
    let ghost s2 = ctx@;
    let right = match resolve_value(ctx, rhs) {
        Ok(data) => data,
        Err(reason) => {
            return Err(reason);
        },
    };
    proof {
        lemma_grows_keeps_operands(s1, s2);
        lemma_grows_keeps_operands(s2, ctx@);
        assert(s1.operand_ok(input(OperandData::VReg(left_reg))));
        assert(s2.operand_ok(input(OperandData::VReg(left_reg))));
        assert(s2.operand_ok(output(OperandData::VReg(out))));
        assert(s2.operand_ok(input_output(OperandData::VReg(out))));
    }
    let copy = InstructionData {
        opcode: Opcode::MOVrr32,
        operands: vec![
            Operand::output(OperandData::VReg(out)),
            Operand::input(OperandData::VReg(left_reg)),
        ],
    };
    assert(copy@.operands =~= seq![
        output(OperandData::VReg(out)),
        input(OperandData::VReg(left_reg)),
    ]);
    let ghost s3 = ctx@;
    ctx.emit(copy);
    let opcode = match right {
        OperandData::Int32(_) => Opcode::ADDri32,
        _ => Opcode::ADDrr32,
    };
    let add = InstructionData {
        opcode,
        operands: vec![Operand::input_output(OperandData::VReg(out)), Operand::input(right)],
    };
    proof {
        assert(add@.operands =~= seq![input_output(OperandData::VReg(out)), input(right)]);
        lemma_grows_keeps_operands(s3, ctx@);
    }
    ctx.emit(add);
    Ok(())
}

/// Lowers a `condbr`.
pub fn lower_condbr(
    ctx: &mut LoweringContext,
    arg: ValueId,
    true_block: BasicBlockId,
    false_block: BasicBlockId,
) -> (result: Result<(), Reason>)
    requires
        old(ctx).wf(),
    ensures
        final(ctx).wf(),
        final(ctx).env() == old(ctx).env(),
        final(ctx).data() == old(ctx).data(),
        rule_outcome(
            old(ctx)@,
            final(ctx)@,
            rule_condbr(old(ctx).env(), old(ctx)@, arg, true_block, false_block),
            result,
        ),
{
    let producer = match ctx.value(arg) {
        None => {
            return Err(Reason::UnknownValue);
        },
        Some(Value::Instruction(inst)) => match ctx.inst(inst) {
            None => {
                return Err(Reason::UnknownInstruction);
            },
            Some(producer) => producer,
        },
        Some(_) => {
            return Err(Reason::Condition);
        },
    };
    let (cond, lhs, rhs) = match &producer.operand {
        IrOperand::ICmp { cond, lhs, rhs, .. } => (*cond, *lhs, *rhs),
        _ => {
            return Err(Reason::Condition);
        },
    };
    let (left, imm) = match (ctx.value(lhs), ctx.value(rhs)) {
        (None, _) => {
            return Err(Reason::UnknownValue);
        },
        (_, None) => {
            return Err(Reason::UnknownValue);
        },
        (
            Some(Value::Instruction(left)),
            Some(Value::Constant(ConstantData::Int(ConstantInt::Int32(imm)))),
        ) => (left, imm),
        _ => {
            return Err(Reason::Operand);
        },
    };
    let jump = match jump_opcode(cond) {
        None => {
            return Err(Reason::Predicate);
        },
        Some(jump) => jump,
    };
    let true_label = match label_of_block(ctx, true_block) {
        Ok(label) => label,
        Err(reason) => {
            return Err(reason);
        },
    };
    let false_label = match label_of_block(ctx, false_block) {
        Ok(label) => label,
        Err(reason) => {
            return Err(reason);
        },
    };
    let ghost s0 = ctx@;
    let left_reg = match ctx.materialize(left) {
        Ok(vreg) => vreg,
        Err(reason) => {
            return Err(reason);
        },
    };
    let ghost s1 = ctx@;
    proof {
        lemma_grows_keeps_operands(s0, s1);
        assert(s0.operand_ok(input(OperandData::Block(true_label))));
        assert(s0.operand_ok(input(OperandData::Block(false_label))));
    }
    let compare = InstructionData {
        opcode: Opcode::CMPri32,
        operands: vec![
            Operand::input(OperandData::VReg(left_reg)),
            Operand::input(OperandData::Int32(imm)),
        ],
    };
    assert(compare@.operands =~= seq![
        input(OperandData::VReg(left_reg)),
        input(OperandData::Int32(imm)),
    ]);
    ctx.emit(compare);
    let ghost s2 = ctx@;
    let taken = InstructionData {
        opcode: jump,
        operands: vec![Operand::input(OperandData::Block(true_label))],
    };
    proof {
        assert(taken@.operands =~= seq![input(OperandData::Block(true_label))]);
        lemma_grows_keeps_operands(s1, s2);
    }
    ctx.emit(taken);
    let other = InstructionData {
        opcode: Opcode::JMP,
        operands: vec![Operand::input(OperandData::Block(false_label))],
    };
    proof {
        assert(other@.operands =~= seq![input(OperandData::Block(false_label))]);
        lemma_grows_keeps_operands(s2, ctx@);
        lemma_grows_keeps_operands(s1, ctx@);
    }
    ctx.emit(other);
    Ok(())
}

/// Lowers a `ret`.
pub fn lower_return(ctx: &mut LoweringContext, val: Option<ValueId>) -> (result: Result<
    (),
    Reason,
>)
    requires
        old(ctx).wf(),
    ensures
        final(ctx).wf(),
        final(ctx).env() == old(ctx).env(),
        final(ctx).data() == old(ctx).data(),
        rule_outcome(old(ctx)@, final(ctx)@, rule_ret(old(ctx).env(), old(ctx)@, val), result),
{
    let value = match val {
        None => {
            return Err(Reason::RetVoid);
        },
        Some(value) => value,
    };
    let data = match resolve_value(ctx, value) {
        Ok(data) => data,
        Err(reason) => {
            return Err(reason);
        },
    };
    let opcode = match data {
        OperandData::Int32(_) => Opcode::MOVri32,
        _ => Opcode::MOVrr32,
    };
    let copy = InstructionData {
        opcode,
        operands: vec![Operand::output(OperandData::Reg(GR32::EAX.reg())), Operand::input(data)],
    };
    assert(copy@.operands =~= seq![output(OperandData::Reg(return_register())), input(data)]);
    ctx.emit(copy);
    let ret = InstructionData { opcode: Opcode::RET, operands: Vec::new() };
    assert(ret@.operands =~= Seq::<Operand>::empty());
    ctx.emit(ret);
    Ok(())
}

/// Once the operands of a `Phi` fail for a prefix of the incoming pairs,
/// they fail for every longer prefix, for the same reason.
pub proof fn lemma_phi_failure_stays(
    env: Env,
    s: LowerState,
    incoming: Seq<(ValueId, BasicBlockId)>,
    k: nat,
    n: nat,
)
    requires
        k <= n,
        phi_operands(env, s, incoming, k) is Err,
    ensures
        phi_operands(env, s, incoming, n) == phi_operands(env, s, incoming, k),
    decreases n,
{
    if k < n {
        lemma_phi_failure_stays(env, s, incoming, k, (n - 1) as nat);
    }
}

/// Lowers a `phi`.
pub fn lower_phi(
    ctx: &mut LoweringContext,
    id: InstructionId,
    ty: TypeId,
    incoming: &Vec<(ValueId, BasicBlockId)>,
) -> (result: Result<(), Reason>)
    requires
        old(ctx).wf(),
    ensures
        final(ctx).wf(),
        final(ctx).env() == old(ctx).env(),
        final(ctx).data() == old(ctx).data(),
        rule_outcome(
            old(ctx)@,
            final(ctx)@,
            rule_phi(old(ctx).env(), old(ctx)@, id, ty, incoming@),
            result,
        ),
{
    let ghost start = ctx@;
    let ghost env = ctx.env();
    let out = ctx.output_vreg_for(id, ty);
    let ghost s0 = ctx@;
    let mut operands: Vec<Operand> = vec![Operand::output(OperandData::VReg(out))];
    let mut i: usize = 0;
    assert(operands@.subrange(1, operands@.len() as int) =~= Seq::<Operand>::empty());
    while i < incoming.len()
        invariant
            ctx.wf(),
            ctx.env() == env,
            env == old(ctx).env(),
            start == old(ctx)@,
            ctx.data() == old(ctx).data(),
            0 <= i <= incoming@.len(),
            start.grows_to(s0),
            s0.grows_to(ctx@),
            ctx@.insts == start.insts,
            operands@.len() == 1 + 2 * i,
            operands@[0] == output(OperandData::VReg(out)),
            phi_operands(env, s0, incoming@, i as nat) == Ok::<(LowerState, Seq<Operand>), Reason>(
                (ctx@, operands@.subrange(1, operands@.len() as int)),
            ),
            forall|j: int| 0 <= j < operands@.len() ==> ctx@.operand_ok(#[trigger] operands@[j]),
            forall|j: int|
                0 <= j < operands@.len() ==> (#[trigger] operands@[j]).role == Opcode::Phi.role_of(
                    j,
                ),
            (s0, out) == start.output_vreg_for(id, ty),
        decreases incoming@.len() - i,
    {
        let (value, block) = incoming[i];
        let ghost s1 = ctx@;
        let ghost so_far = operands@;
        let data = match resolve_value(ctx, value) {
            Ok(data) => data,
            Err(reason) => {
                proof {
                    lemma_phi_failure_stays(env, s0, incoming@, (i + 1) as nat, incoming@.len());
                }
                return Err(reason);
            },
        };
        proof {
            lemma_grows_twice(s0, s1, ctx@);
            lemma_grows_twice(start, s0, ctx@);
        }
        let label = match label_of_block(ctx, block) {
            Ok(label) => label,
            Err(reason) => {
                proof {
                    lemma_phi_failure_stays(env, s0, incoming@, (i + 1) as nat, incoming@.len());
                }
                return Err(reason);
            },
        };
        operands.push(Operand::input(data));
        operands.push(Operand::input(OperandData::Block(label)));
        proof {
            lemma_grows_keeps_operands(s1, ctx@);
            assert(operands@.subrange(1, operands@.len() as int) =~= so_far.subrange(
                1,
                so_far.len() as int,
            ).push(input(data)).push(input(OperandData::Block(label))));
            assert forall|j: int| 0 <= j < operands@.len() implies ctx@.operand_ok(
                #[trigger] operands@[j],
            ) by {
                if j < so_far.len() {
                    assert(s1.operand_ok(so_far[j]));
                }
            }
        }
        i = i + 1;
    }
    let ghost rest = operands@.subrange(1, operands@.len() as int);
    let inst = InstructionData { opcode: Opcode::Phi, operands };
    assert(inst@.operands =~= seq![output(OperandData::VReg(out))] + rest);
    ctx.emit(inst);
    Ok(())
}

/// A stateless handle for the x86-64 rules.
#[derive(Clone, Copy)]
pub struct Lower {}

impl Lower {
    pub fn new() -> Lower {
        Lower {  }
    }

    /// Lowers `inst`; see `lower`.
    pub fn lower(ctx: &mut LoweringContext, inst: &Instruction) -> (result: Result<(), Error>)
        requires
            old(ctx).wf(),
        ensures
            final(ctx).wf(),
            final(ctx).env() == old(ctx).env(),
            final(ctx).data() == old(ctx).data(),
            lowered(old(ctx)@, final(ctx)@, lower_spec(old(ctx).env(), old(ctx)@, *inst), result),
    {
        lower(ctx, inst)
    }
}

/// What `lower` owes: on success the state that `lower_spec` gives; on
/// failure its error, no instruction emitted, and nothing lost of what was
/// recorded.
pub open spec fn lowered(
    before: LowerState,
    after: LowerState,
    expected: Result<LowerState, Error>,
    result: Result<(), Error>,
) -> bool {
    match expected {
        Ok(state) => result is Ok && after == state,
        Err(error) => result == Err::<(), Error>(error) && after.insts == before.insts
            && before.grows_to(after),
    }
}

/// Lowers one instruction: applies the rule for its kind to the context.
/// An instruction without a rule gives an error and emits nothing.
pub fn lower(ctx: &mut LoweringContext, inst: &Instruction) -> (result: Result<(), Error>)
    requires
        old(ctx).wf(),
    ensures
        final(ctx).wf(),
        final(ctx).env() == old(ctx).env(),
        final(ctx).data() == old(ctx).data(),
        lowered(old(ctx)@, final(ctx)@, lower_spec(old(ctx).env(), old(ctx)@, *inst), result),
{
    let outcome = match &inst.operand {
        IrOperand::Alloca { ty, .. } => match inst.id {
            None => Err(Reason::Detached),
            Some(id) => lower_alloca(ctx, id, *ty),
        },
        IrOperand::Phi { ty, incoming } => match inst.id {
            None => Err(Reason::Detached),
            Some(id) => lower_phi(ctx, id, *ty, incoming),
        },
        IrOperand::Load { ty, addr, .. } => match inst.id {
            None => Err(Reason::Detached),
            Some(id) => lower_load(ctx, id, *ty, *addr),
        },
        IrOperand::Store { value, addr, .. } => lower_store(ctx, *value, *addr),
        IrOperand::IntBinary { ty, lhs, rhs, .. } => match inst.opcode {
            IrOpcode::Add => match inst.id {
                None => Err(Reason::Detached),
                Some(id) => lower_add(ctx, id, *ty, *lhs, *rhs),
            },
            _ => Err(Reason::Operation),
        },
        IrOperand::ICmp { .. } => Ok(()),
        IrOperand::Br { block } => lower_br(ctx, *block),
        IrOperand::CondBr { arg, true_block, false_block } => lower_condbr(
            ctx,
            *arg,
            *true_block,
            *false_block,
        ),
        IrOperand::Ret { val, .. } => lower_return(ctx, *val),
        IrOperand::Invalid => Err(Reason::NoRule),
    };
    match outcome {
        Ok(()) => Ok(()),
        Err(reason) => Err(Error::Todo { inst: inst.id, kind: inst.operand.kind(), reason }),
    }
}

} // verus!
