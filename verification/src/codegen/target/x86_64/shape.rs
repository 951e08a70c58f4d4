//! What the rules emit, stated for every instruction that they accept.

use crate::codegen::lower::{lemma_grows_twice, Env, LowerState};
use crate::codegen::target::x86_64::instruction::{jump_for, MachInst, Opcode, OperandData};
use crate::codegen::target::x86_64::lower::{
    comparison_at, comparison_sides, input, label_at, lower_spec, output, phi_operands, resolve,
    rule_condbr, rule_phi, value_at,
};
use crate::ir::function::basic_block::BasicBlockId;
use crate::ir::function::instruction::{
    ICmpCond, Instruction, InstructionId, Operand as IrOperand,
};
use crate::ir::types::TypeId;
use crate::ir::value::{Value, ValueId};
use vstd::prelude::*;

verus! {

/// The predicates that have a conditional jump, each with its jump; every
/// other predicate has none.
pub proof fn lemma_jump_table(cond: ICmpCond)
    ensures
        jump_for(ICmpCond::Eq) == Some(Opcode::JE),
        jump_for(ICmpCond::Ne) == Some(Opcode::JNE),
        jump_for(ICmpCond::Sle) == Some(Opcode::JLE),
        jump_for(ICmpCond::Slt) == Some(Opcode::JL),
        jump_for(ICmpCond::Sge) == Some(Opcode::JGE),
        jump_for(ICmpCond::Sgt) == Some(Opcode::JG),
        jump_for(cond) is None <==> (cond == ICmpCond::Ugt || cond == ICmpCond::Uge || cond
            == ICmpCond::Ult || cond == ICmpCond::Ule),
{
}

/// A conditional branch that is lowered emits exactly three instructions
/// behind those that were there: the comparison of a register with an
/// immediate, the conditional jump of the predicate to the label of the true
/// block, and a jump to the label of the false block. A branch on a
/// comparison whose predicate has no jump is not lowered.
pub proof fn lemma_conditional_branch_shape(
    env: Env,
    s: LowerState,
    arg: ValueId,
    true_block: BasicBlockId,
    false_block: BasicBlockId,
)
    ensures
        match rule_condbr(env, s, arg, true_block, false_block) {
            Ok(after) => {
                let n = s.insts.len() as int;
                &&& comparison_at(env, arg) is Ok
                &&& comparison_sides(
                    env,
                    comparison_at(env, arg)->Ok_0.1,
                    comparison_at(env, arg)->Ok_0.2,
                ) is Ok
                &&& jump_for(comparison_at(env, arg)->Ok_0.0) is Some
                &&& after.insts.len() == n + 3
                &&& after.insts.subrange(0, n) == s.insts
                &&& after.insts[n].opcode == Opcode::CMPri32
                &&& after.insts[n].operands.len() == 2
                &&& after.insts[n].operands[0].data is VReg
                &&& after.insts[n].operands[1] == input(
                    OperandData::Int32(
                        comparison_sides(
                            env,
                            comparison_at(env, arg)->Ok_0.1,
                            comparison_at(env, arg)->Ok_0.2,
                        )->Ok_0.1,
                    ),
                )
                &&& after.insts[n + 1] == (MachInst {
                    opcode: jump_for(comparison_at(env, arg)->Ok_0.0)->Some_0,
                    operands: seq![input(OperandData::Block(s.labels[true_block.0]))],
                })
                &&& after.insts[n + 2] == (MachInst {
                    opcode: Opcode::JMP,
                    operands: seq![input(OperandData::Block(s.labels[false_block.0]))],
                })
            },
            Err(_) => true,
        },
        comparison_at(env, arg) is Ok && jump_for(comparison_at(env, arg)->Ok_0.0) is None
            ==> rule_condbr(env, s, arg, true_block, false_block) is Err,
{
    if let Ok(after) = rule_condbr(env, s, arg, true_block, false_block) {
        let n = s.insts.len() as int;
        assert(after.insts.subrange(0, n) =~= s.insts);
    }
}

/// The operands of a `Phi` for `n` incoming pairs are `2 n` operands: for
/// the `k`-th pair the value, a register or an immediate that is read, at
/// `2 k`, and the label of the predecessor at `2 k + 1`. Labels and emitted
/// instructions are as before.
pub proof fn lemma_phi_operands_shape(
    env: Env,
    s: LowerState,
    incoming: Seq<(ValueId, BasicBlockId)>,
    n: nat,
)
    requires
        n <= incoming.len(),
    ensures
        match phi_operands(env, s, incoming, n) {
            Ok((after, operands)) => {
                &&& operands.len() == 2 * n
                &&& after.labels == s.labels
                &&& after.insts == s.insts
                &&& forall|k: int|
                    0 <= k < n ==> {
                        &&& (#[trigger] operands[2 * k]).role == input(OperandData::Int32(0)).role
                        &&& operands[2 * k].data is VReg || operands[2 * k].data is Int32
                        &&& operands[2 * k + 1] == input(
                            OperandData::Block(s.labels[incoming[k].1.0]),
                        )
                        &&& s.labels.contains_key(incoming[k].1.0)
                    }
            },
            Err(_) => true,
        },
    decreases n,
{
    if n > 0 {
        lemma_phi_operands_shape(env, s, incoming, (n - 1) as nat);
        if let Ok((s1, before)) = phi_operands(env, s, incoming, (n - 1) as nat) {
            if let Ok((s2, data)) = resolve(env, s1, incoming[n - 1].0) {
                if let Ok(label) = label_at(s2, incoming[n - 1].1) {
                    let operands = before.push(input(data)).push(
                        input(OperandData::Block(label)),
                    );
                    assert forall|k: int| 0 <= k < n implies {
                        &&& (#[trigger] operands[2 * k]).role == input(OperandData::Int32(0)).role
                        &&& operands[2 * k].data is VReg || operands[2 * k].data is Int32
                        &&& operands[2 * k + 1] == input(
                            OperandData::Block(s.labels[incoming[k].1.0]),
                        )
                        &&& s.labels.contains_key(incoming[k].1.0)
                    } by {
                        if k < n - 1 {
                            assert(operands[2 * k] == before[2 * k]);
                            assert(operands[2 * k + 1] == before[2 * k + 1]);
                        }
                    }
                }
            }
        }
    }
}

/// A `phi` with `N` incoming pairs that is lowered emits one `Phi` with
/// `1 + 2 N` operands: the output register, and then for each pair, in the
/// order of the pairs, the value and the label of the predecessor.
pub proof fn lemma_phi_shape(
    env: Env,
    s: LowerState,
    id: InstructionId,
    ty: TypeId,
    incoming: Seq<(ValueId, BasicBlockId)>,
)
    ensures
        match rule_phi(env, s, id, ty, incoming) {
            Ok(after) => {
                let phi = after.insts.last();
                &&& after.insts.len() == s.insts.len() + 1
                &&& after.insts.drop_last() == s.insts
                &&& phi.opcode == Opcode::Phi
                &&& phi.operands.len() == 1 + 2 * incoming.len()
                &&& phi.operands[0] == output(OperandData::VReg(s.output_vreg_for(id, ty).1))
                &&& forall|k: int|
                    0 <= k < incoming.len() ==> {
                        &&& (#[trigger] phi.operands[1 + 2 * k]).role == input(
                            OperandData::Int32(0),
                        ).role
                        &&& phi.operands[1 + 2 * k].data is VReg || phi.operands[1 + 2 * k].data is Int32
                        &&& phi.operands[2 + 2 * k] == input(
                            OperandData::Block(s.labels[incoming[k].1.0]),
                        )
                    }
            },
            Err(_) => true,
        },
{
    let (s0, out) = s.output_vreg_for(id, ty);
    lemma_phi_operands_shape(env, s0, incoming, incoming.len());
    if let Ok(after) = rule_phi(env, s, id, ty, incoming) {
        let (s1, operands) = phi_operands(env, s0, incoming, incoming.len())->Ok_0;
        let phi = after.insts.last();
        assert(after.insts.drop_last() =~= s.insts);
        assert forall|k: int| 0 <= k < incoming.len() implies {
            &&& (#[trigger] phi.operands[1 + 2 * k]).role == input(OperandData::Int32(0)).role
            &&& phi.operands[1 + 2 * k].data is VReg || phi.operands[1 + 2 * k].data is Int32
            &&& phi.operands[2 + 2 * k] == input(OperandData::Block(s.labels[incoming[k].1.0]))
        } by {
            assert(phi.operands[1 + 2 * k] == operands[2 * k]);
            assert(phi.operands[2 + 2 * k] == operands[2 * k + 1]);
        }
    }
}

/// Resolving a value only adds to the state.
pub proof fn lemma_resolve_grows(env: Env, s: LowerState, value: ValueId)
    ensures
        match resolve(env, s, value) {
            Ok((after, _)) => s.grows_to(after) && after.cur_block == s.cur_block && after.insts
                == s.insts,
            Err(_) => true,
        },
{
}

/// The operands of a `Phi` only add to the state.
pub proof fn lemma_phi_operands_grow(
    env: Env,
    s: LowerState,
    incoming: Seq<(ValueId, BasicBlockId)>,
    n: nat,
)
    ensures
        match phi_operands(env, s, incoming, n) {
            Ok((after, _)) => s.grows_to(after) && after.cur_block == s.cur_block,
            Err(_) => true,
        },
    decreases n,
{
    if n > 0 {
        lemma_phi_operands_grow(env, s, incoming, (n - 1) as nat);
        if let Ok((s1, _)) = phi_operands(env, s, incoming, (n - 1) as nat) {
            lemma_resolve_grows(env, s1, incoming[n - 1].0);
            if let Ok((s2, _)) = resolve(env, s1, incoming[n - 1].0) {
                lemma_grows_twice(s, s1, s2);
            }
        }
    }
}

/// Lowering an instruction only adds to the state: the registers, slots and
/// labels that were there are there afterwards, every instruction keeps
/// the register that was recorded for it, and the block being lowered is the
/// same.
pub proof fn lemma_lowering_grows(env: Env, s: LowerState, inst: Instruction)
    ensures
        match lower_spec(env, s, inst) {
            Ok(after) => s.grows_to(after) && after.cur_block == s.cur_block,
            Err(_) => true,
        },
{
    match inst.operand {
        IrOperand::Phi { ty, incoming } => {
            if let Some(id) = inst.id {
                let s0 = s.output_vreg_for(id, ty).0;
                lemma_phi_operands_grow(env, s0, incoming@, incoming@.len());
                if let Ok((s1, _)) = phi_operands(env, s0, incoming@, incoming@.len()) {
                    lemma_grows_twice(s, s0, s1);
                }
            }
        },
        IrOperand::Store { value, .. } => {
            lemma_resolve_grows(env, s, value);
        },
        IrOperand::IntBinary { ty, lhs, rhs, .. } => {
            if let Some(id) = inst.id {
                if let Some(Value::Instruction(left)) = value_at(env, lhs) {
                    if let Ok((s1, _)) = s.materialize(env, left) {
                        let s2 = s1.output_vreg_for(id, ty).0;
                        lemma_grows_twice(s, s1, s2);
                        lemma_resolve_grows(env, s2, rhs);
                        if let Ok((s3, _)) = resolve(env, s2, rhs) {
                            lemma_grows_twice(s, s2, s3);
                        }
                    }
                }
            }
        },
        IrOperand::Ret { val, .. } => {
            if let Some(value) = val {
                lemma_resolve_grows(env, s, value);
            }
        },
        _ => {},
    }
}

} // verus!
