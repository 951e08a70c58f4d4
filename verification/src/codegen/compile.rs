//! Lowering of whole functions.
//!
//! A function is lowered in two passes over its program order. The first
//! gives a virtual register to every instruction that produces one, so that
//! the register of a value is known wherever the value is used, before or
//! after its definition and in whatever block. The second lowers the
//! blocks in order, and each block's instructions in order, against the
//! rules of the target.

use crate::codegen::function::Function as MachFunction;
use crate::codegen::lower::{Env, LowerState, LoweringContext};
use crate::codegen::register::VReg;
use crate::codegen::target::x86_64::instruction::{inst_views, MemoryOperand, OperandData};
use crate::codegen::target::x86_64::lower::{lower, lower_spec};
use crate::error::{Error, Reason};
use crate::ir::function::basic_block::BasicBlockId;
use crate::ir::function::instruction::{
    Instruction, InstructionId, Operand as IrOperand, OperandKind,
};
use crate::ir::function::layout::{at, Layout};
use crate::ir::function::Function;
use crate::ir::module::Module;
use crate::ir::types::{TypeId, Types};
use vstd::prelude::*;

verus! {

/// A block of the program order with its instructions.
pub type Block = (BasicBlockId, Seq<InstructionId>);

/// The type of the virtual register that `inst` writes its result to, for
/// the kinds of instruction that have one.
pub open spec fn result_type(inst: Instruction) -> Option<TypeId> {
    match inst.operand {
        IrOperand::Phi { ty, .. } => Some(ty),
        IrOperand::Load { ty, .. } => Some(ty),
        IrOperand::IntBinary { ty, .. } => Some(ty),
        _ => None,
    }
}

/// The state after the first pass has seen the instruction `id`: its
/// result, if it has one, has a virtual register.
pub open spec fn assign_one(env: Env, s: LowerState, id: InstructionId) -> LowerState {
    match at(env.insts, id.0 as int) {
        Some(inst) => match result_type(inst) {
            Some(ty) => s.output_vreg_for(id, ty).0,
            None => s,
        },
        None => s,
    }
}

/// The state after the first pass has seen the first `n` of `ids`.
pub open spec fn assign_insts(env: Env, s: LowerState, ids: Seq<InstructionId>, n: nat) -> LowerState
    decreases n,
{
    if n == 0 {
        s
    } else {
        assign_one(env, assign_insts(env, s, ids, (n - 1) as nat), ids[n - 1])
    }
}

/// The state after the first pass has seen the first `n` blocks of
/// `program`.
pub open spec fn assign_blocks(env: Env, s: LowerState, program: Seq<Block>, n: nat) -> LowerState
    decreases n,
{
    if n == 0 {
        s
    } else {
        let block = program[n - 1];
        assign_insts(env, assign_blocks(env, s, program, (n - 1) as nat), block.1, block.1.len())
    }
}

/// What lowering the instruction `id` gives. An instruction that the
/// function does not have is an error.
pub open spec fn lower_one(env: Env, s: LowerState, id: InstructionId) -> Result<LowerState, Error> {
    match at(env.insts, id.0 as int) {
        Some(inst) => lower_spec(env, s, inst),
        None => Err(
            Error::Todo {
                inst: Some(id),
                kind: OperandKind::Invalid,
                reason: Reason::UnknownInstruction,
            },
        ),
    }
}

/// What lowering the first `n` of `ids` in order gives: the state after the
/// last, or the first error.
pub open spec fn lower_insts(env: Env, s: LowerState, ids: Seq<InstructionId>, n: nat) -> Result<
    LowerState,
    Error,
>
    decreases n,
{
    if n == 0 {
        Ok(s)
    } else {
        match lower_insts(env, s, ids, (n - 1) as nat) {
            Ok(before) => lower_one(env, before, ids[n - 1]),
            Err(error) => Err(error),
        }
    }
}

/// What lowering the first `n` blocks of `program` in order gives.
pub open spec fn lower_blocks(env: Env, s: LowerState, program: Seq<Block>, n: nat) -> Result<
    LowerState,
    Error,
>
    decreases n,
{
    if n == 0 {
        Ok(s)
    } else {
        match lower_blocks(env, s, program, (n - 1) as nat) {
            Ok(before) => {
                let block = program[n - 1];
                lower_insts(env, before.enter(block.0), block.1, block.1.len())
            },
            Err(error) => Err(error),
        }
    }
}

/// The blocks of a program, without their instructions.
pub open spec fn blocks_of_program(program: Seq<Block>) -> Seq<BasicBlockId> {
    Seq::new(program.len(), |i: int| program[i].0)
}

/// The state in which the second pass starts: every block has its label
/// and every result its register.
pub open spec fn prepared(env: Env, program: Seq<Block>) -> LowerState {
    assign_blocks(env, LowerState::initial(blocks_of_program(program)), program, program.len())
}

/// What lowering a function gives: the final state, or the first error.
pub open spec fn compile_spec(env: Env, program: Seq<Block>) -> Result<LowerState, Error> {
    lower_blocks(env, prepared(env, program), program, program.len())
}

/// The index in the emitted instructions at which each block starts.
pub open spec fn block_starts(env: Env, program: Seq<Block>) -> Seq<nat> {
    Seq::new(
        program.len(),
        |i: int|
            match lower_blocks(env, prepared(env, program), program, i as nat) {
                Ok(state) => state.insts.len(),
                Err(_) => 0,
            },
    )
}

/// What the first pass has recorded for an instruction when it turns to
/// the next stays recorded.
proof fn lemma_assign_insts_keep(
    env: Env,
    s: LowerState,
    ids: Seq<InstructionId>,
    n: nat,
    k: usize,
)
    requires
        s.vreg_of.contains_key(k),
    ensures
        assign_insts(env, s, ids, n).vreg_of.contains_key(k),
        assign_insts(env, s, ids, n).vreg_of[k] == s.vreg_of[k],
    decreases n,
{
    if n > 0 {
        lemma_assign_insts_keep(env, s, ids, (n - 1) as nat, k);
    }
}

/// The first pass records a register for each instruction with a result
/// that it has seen.
proof fn lemma_assign_insts_record(
    env: Env,
    s: LowerState,
    ids: Seq<InstructionId>,
    n: nat,
    j: int,
)
    requires
        0 <= j < n <= ids.len(),
        at(env.insts, ids[j].0 as int) is Some,
        result_type(at(env.insts, ids[j].0 as int)->Some_0) is Some,
    ensures
        assign_insts(env, s, ids, n).vreg_of.contains_key(ids[j].0),
    decreases n,
{
    if j < n - 1 {
        lemma_assign_insts_record(env, s, ids, (n - 1) as nat, j);
        let before = assign_insts(env, s, ids, (n - 1) as nat);
        lemma_assign_insts_keep(env, before, ids, 0, ids[j].0);
        assert(assign_one(env, before, ids[n - 1]).vreg_of.contains_key(ids[j].0));
    }
}

/// When the second pass starts, every instruction of the program that has a
/// result has its register. From then on, in whatever block it is asked
/// for, `materialize` returns that register and changes nothing: no
/// register is made for a value while the blocks are lowered.
pub proof fn lemma_every_result_has_its_register(
    env: Env,
    program: Seq<Block>,
    b: int,
    j: int,
    later: LowerState,
)
    requires
        0 <= b < program.len(),
        0 <= j < program[b].1.len(),
        at(env.insts, program[b].1[j].0 as int) is Some,
        result_type(at(env.insts, program[b].1[j].0 as int)->Some_0) is Some,
        prepared(env, program).grows_to(later),
    ensures
        prepared(env, program).vreg_of.contains_key(program[b].1[j].0),
        later.materialize(env, program[b].1[j]) == Ok::<(LowerState, VReg), Reason>(
            (later, prepared(env, program).vreg_of[program[b].1[j].0]),
        ),
{
    let start = LowerState::initial(blocks_of_program(program));
    let id = program[b].1[j];
    let before = assign_blocks(env, start, program, b as nat);
    let after = assign_blocks(env, start, program, (b + 1) as nat);
    lemma_assign_insts_record(env, before, program[b].1, program[b].1.len(), j);
    assert(after.vreg_of.contains_key(id.0));
    lemma_assign_blocks_tail(env, start, program, (b + 1) as nat, program.len(), id.0);
}

/// What the first pass has recorded after `n` blocks is recorded after
/// `m`.
proof fn lemma_assign_blocks_tail(
    env: Env,
    s: LowerState,
    program: Seq<Block>,
    n: nat,
    m: nat,
    k: usize,
)
    requires
        n <= m,
        assign_blocks(env, s, program, n).vreg_of.contains_key(k),
    ensures
        assign_blocks(env, s, program, m).vreg_of.contains_key(k),
        assign_blocks(env, s, program, m).vreg_of[k] == assign_blocks(env, s, program, n).vreg_of[k],
    decreases m,
{
    if n < m {
        let block = program[m - 1];
        let before = assign_blocks(env, s, program, (m - 1) as nat);
        lemma_assign_blocks_tail(env, s, program, n, (m - 1) as nat, k);
        lemma_assign_insts_keep(env, before, block.1, block.1.len(), k);
    }
}

/// Once lowering fails for a prefix of the instructions, it fails for every
/// longer prefix, with the same error.
pub proof fn lemma_insts_failure_stays(
    env: Env,
    s: LowerState,
    ids: Seq<InstructionId>,
    k: nat,
    n: nat,
)
    requires
        k <= n,
        lower_insts(env, s, ids, k) is Err,
    ensures
        lower_insts(env, s, ids, n) == lower_insts(env, s, ids, k),
    decreases n,
{
    if k < n {
        lemma_insts_failure_stays(env, s, ids, k, (n - 1) as nat);
    }
}

/// Once lowering fails for a prefix of the blocks, it fails for every longer
/// prefix, with the same error.
pub proof fn lemma_blocks_failure_stays(
    env: Env,
    s: LowerState,
    program: Seq<Block>,
    k: nat,
    n: nat,
)
    requires
        k <= n,
        lower_blocks(env, s, program, k) is Err,
    ensures
        lower_blocks(env, s, program, n) == lower_blocks(env, s, program, k),
    decreases n,
{
    if k < n {
        lemma_blocks_failure_stays(env, s, program, k, (n - 1) as nat);
    }
}

/// What lowering reads of `function` and `types`.
pub open spec fn env_of(function: &Function, types: &Types) -> Env {
    Env { insts: function.data.insts(), values: function.data.values@, types: types@ }
}

/// The first pass for one instruction: its result, if it has one, gets a
/// virtual register.
fn assign_register(ctx: &mut LoweringContext, id: InstructionId)
    requires
        old(ctx).wf(),
    ensures
        final(ctx).wf(),
        final(ctx).env() == old(ctx).env(),
        final(ctx).data() == old(ctx).data(),
        final(ctx)@ == assign_one(old(ctx).env(), old(ctx)@, id),
{
    match ctx.inst(id) {
        Some(inst) => {
            let ty = match &inst.operand {
                IrOperand::Phi { ty, .. } => Some(*ty),
                IrOperand::Load { ty, .. } => Some(*ty),
                IrOperand::IntBinary { ty, .. } => Some(*ty),
                _ => None,
            };
            if let Some(ty) = ty {
                ctx.output_vreg_for(id, ty);
            }
        },
        None => {},
    }
}

/// The first pass over the instructions of `block`.
fn assign_block(ctx: &mut LoweringContext, layout: &Layout, block: BasicBlockId)
    requires
        old(ctx).wf(),
        layout.wf(),
        layout.blocks().contains(block),
    ensures
        final(ctx).wf(),
        final(ctx).env() == old(ctx).env(),
        final(ctx).data() == old(ctx).data(),
        final(ctx)@ == assign_insts(
            old(ctx).env(),
            old(ctx)@,
            layout.insts_of(block),
            layout.insts_of(block).len(),
        ),
{
    let ghost env = ctx.env();
    let ghost entry = ctx@;
    let ghost body = layout.insts_of(block);
    let mut iter = layout.inst_iter(block);
    loop
        invariant
            ctx.wf(),
            ctx.env() == env,
            env == old(ctx).env(),
            entry == old(ctx)@,
            ctx.data() == old(ctx).data(),
            iter.wf(),
            iter.layout() == layout,
            iter.block() == block,
            body == layout.insts_of(block),
            iter.back() == body.len(),
            0 <= iter.front() <= body.len(),
            ctx@ == assign_insts(env, entry, body, iter.front() as nat),
        ensures
            ctx.wf(),
            ctx.env() == env,
            ctx.data() == old(ctx).data(),
            ctx@ == assign_insts(env, entry, body, body.len()),
        decreases body.len() - iter.front(),
    {
        match iter.next() {
            Some(id) => {
                assign_register(ctx, id);
            },
            None => {
                break ;
            },
        }
    }
}

/// The second pass over the instructions of `block`.
fn lower_block(ctx: &mut LoweringContext, layout: &Layout, block: BasicBlockId) -> (result: Result<
    (),
    Error,
>)
    requires
        old(ctx).wf(),
        layout.wf(),
        layout.blocks().contains(block),
    ensures
        final(ctx).wf(),
        final(ctx).env() == old(ctx).env(),
        final(ctx).data() == old(ctx).data(),
        match lower_insts(
            old(ctx).env(),
            old(ctx)@.enter(block),
            layout.insts_of(block),
            layout.insts_of(block).len(),
        ) {
            Ok(state) => result is Ok && final(ctx)@ == state,
            Err(error) => result == Err::<(), Error>(error),
        },
{
    let ghost env = ctx.env();
    let ghost body = layout.insts_of(block);
    ctx.enter_block(block);
    let ghost entry = ctx@;
    let mut iter = layout.inst_iter(block);
    loop
        invariant
            ctx.wf(),
            ctx.env() == env,
            env == old(ctx).env(),
            entry == old(ctx)@.enter(block),
            ctx.data() == old(ctx).data(),
            iter.wf(),
            iter.layout() == layout,
            iter.block() == block,
            body == layout.insts_of(block),
            iter.back() == body.len(),
            0 <= iter.front() <= body.len(),
            lower_insts(env, entry, body, iter.front() as nat) == Ok::<LowerState, Error>(ctx@),
        ensures
            ctx.wf(),
            ctx.env() == env,
            ctx.data() == old(ctx).data(),
            lower_insts(env, entry, body, body.len()) == Ok::<LowerState, Error>(ctx@),
        decreases body.len() - iter.front(),
    {
        let ghost front = iter.front();
        match iter.next() {
            Some(id) => {
                let outcome = match ctx.inst(id) {
                    Some(inst) => lower(ctx, inst),
                    None => Err(
                        Error::Todo {
                            inst: Some(id),
                            kind: OperandKind::Invalid,
                            reason: Reason::UnknownInstruction,
                        },
                    ),
                };
                if let Err(error) = outcome {
                    proof {
                        lemma_insts_failure_stays(env, entry, body, (front + 1) as nat, body.len());
                    }
                    return Err(error);
                }
            },
            None => {
                break ;
            },
        }
    }
    Ok(())
}

/// What lowering `function` gives: the code that `compile_spec` defines,
/// with the index at which each block starts, or its error.
pub open spec fn is_lowering_of(
    result: Result<MachFunction, Error>,
    function: &Function,
    types: &Types,
) -> bool {
    match compile_spec(env_of(function, types), function.layout.program()) {
        Ok(state) => {
            &&& result is Ok
            &&& result->Ok_0.state(state.cur_block) == state
            &&& state.wf()
            &&& result->Ok_0.block_starts@.len() == function.layout.blocks().len()
            &&& forall|i: int|
                0 <= i < function.layout.blocks().len() ==> (
                #[trigger] result->Ok_0.block_starts@[i]) as nat == block_starts(
                    env_of(function, types),
                    function.layout.program(),
                )[i]
        },
        Err(error) => result == Err::<MachFunction, Error>(error),
    }
}

/// Lowers `function` to machine instructions.
///
/// On success the result holds exactly what `compile_spec` gives: the
/// instructions of all blocks in program order, the registers, the slots
/// and the labels, with the index at which each block starts. Every
/// register, slot and label that an instruction names exists. A function
/// with an instruction that has no rule gives that instruction's error and
/// nothing else.
pub fn compile_function(function: &Function, types: &Types) -> (result: Result<MachFunction, Error>)
    requires
        function.layout.wf(),
    ensures
        is_lowering_of(result, function, types),
{
    let layout = &function.layout;
    let ghost env = env_of(function, types);
    let ghost program = layout.program();
    let ghost blocks = layout.blocks();
    let mut ctx = LoweringContext::new(&function.data, types, layout);
    let ghost initial = ctx@;
    assert(blocks_of_program(program) =~= blocks);
    let mut iter = layout.block_iter();
    loop
        invariant
            ctx.wf(),
            ctx.env() == env,
            ctx.data() == &function.data,
            layout == &function.layout,
            layout.wf(),
            iter.wf(),
            iter.layout() == layout,
            program == layout.program(),
            blocks == layout.blocks(),
            0 <= iter.position() <= blocks.len(),
            ctx@ == assign_blocks(env, initial, program, iter.position() as nat),
        ensures
            ctx.wf(),
            ctx.env() == env,
            ctx.data() == &function.data,
            ctx@ == assign_blocks(env, initial, program, program.len()),
        decreases blocks.len() - iter.position(),
    {
        let ghost pos = iter.position();
        match iter.next() {
            Some(block) => {
                assert(blocks[pos] == block);
                assert(program[pos] == (block, layout.insts_of(block)));
                assign_block(&mut ctx, layout, block);
            },
            None => {
                break ;
            },
        }
    }
    let ghost ready = ctx@;
    assert(ready == prepared(env, program));
    let mut starts: Vec<usize> = Vec::new();
    let mut iter = layout.block_iter();
    loop
        invariant
            ctx.wf(),
            ctx.env() == env,
            ctx.data() == &function.data,
            env == env_of(function, types),
            layout == &function.layout,
            layout.wf(),
            iter.wf(),
            iter.layout() == layout,
            program == layout.program(),
            blocks == layout.blocks(),
            ready == prepared(env, program),
            0 <= iter.position() <= blocks.len(),
            lower_blocks(env, ready, program, iter.position() as nat) == Ok::<LowerState, Error>(
                ctx@,
            ),
            starts@.len() == iter.position(),
            forall|i: int|
                0 <= i < iter.position() ==> (#[trigger] starts@[i]) as nat == block_starts(
                    env,
                    program,
                )[i],
        ensures
            ctx.wf(),
            ctx.env() == env,
            lower_blocks(env, ready, program, program.len()) == Ok::<LowerState, Error>(ctx@),
            starts@.len() == blocks.len(),
            forall|i: int|
                0 <= i < blocks.len() ==> (#[trigger] starts@[i]) as nat == block_starts(
                    env,
                    program,
                )[i],
        decreases blocks.len() - iter.position(),
    {
        let ghost pos = iter.position();
        match iter.next() {
            Some(block) => {
                assert(blocks[pos] == block);
                assert(program[pos] == (block, layout.insts_of(block)));
                starts.push(ctx.emitted());
                if let Err(error) = lower_block(&mut ctx, layout, block) {
                    proof {
                        lemma_blocks_failure_stays(
                            env,
                            ready,
                            program,
                            (pos + 1) as nat,
                            program.len(),
                        );
                    }
                    return Err(error);
                }
            },
            None => {
                break ;
            },
        }
    }
    Ok(ctx.finish(starts))
}

/// Lowering is a function of the graph: two results of lowering the same
/// function with the same types are the same error, or are code with the
/// same instructions in the same order, the same block starts, and the same
/// registers, slots and labels.
pub proof fn lemma_lowering_is_deterministic(
    function: &Function,
    types: &Types,
    first: Result<MachFunction, Error>,
    second: Result<MachFunction, Error>,
)
    requires
        is_lowering_of(first, function, types),
        is_lowering_of(second, function, types),
    ensures
        first is Ok <==> second is Ok,
        first is Err ==> first->Err_0 == second->Err_0,
        first is Ok ==> {
            &&& inst_views(first->Ok_0.insts@) == inst_views(second->Ok_0.insts@)
            &&& first->Ok_0.block_starts@ == second->Ok_0.block_starts@
            &&& first->Ok_0.vregs@ == second->Ok_0.vregs@
            &&& first->Ok_0.slots@ == second->Ok_0.slots@
            &&& first->Ok_0.inst_id_to_vreg@ == second->Ok_0.inst_id_to_vreg@
            &&& first->Ok_0.inst_id_to_slot_id@ == second->Ok_0.inst_id_to_slot_id@
            &&& first->Ok_0.block_map@ == second->Ok_0.block_map@
        },
{
    if first is Ok {
        let state = compile_spec(env_of(function, types), function.layout.program())->Ok_0;
        assert(first->Ok_0.state(state.cur_block) == second->Ok_0.state(state.cur_block));
        assert(first->Ok_0.block_starts@ =~= second->Ok_0.block_starts@);
    }
}

/// Every instruction of code that was lowered has as many operands as its
/// operation takes, each in the role that the operation gives it; and each
/// operand names a register or a slot that the code has a type for, or the
/// label of a block.
pub proof fn lemma_code_is_in_form(
    function: &Function,
    types: &Types,
    result: Result<MachFunction, Error>,
    i: int,
)
    requires
        is_lowering_of(result, function, types),
        result is Ok,
        0 <= i < result->Ok_0.insts@.len(),
    ensures
        result->Ok_0.insts@[i]@.in_form(),
        forall|j: int|
            0 <= j < result->Ok_0.insts@[i].operands@.len() ==> match (
            #[trigger] result->Ok_0.insts@[i].operands@[j]).data {
                OperandData::VReg(vreg) => vreg.0 < result->Ok_0.vregs@.len(),
                OperandData::Mem(MemoryOperand::Slot(slot)) => slot.0 < result->Ok_0.slots@.len(),
                OperandData::Block(label) => exists|k: usize|
                    result->Ok_0.block_map@.contains_key(k)
                        && #[trigger] result->Ok_0.block_map@[k] == label,
                _ => true,
            },
{
    let state = compile_spec(env_of(function, types), function.layout.program())->Ok_0;
    let code = result->Ok_0;
    assert(code.state(state.cur_block) == state);
    assert(state.insts[i] == code.insts@[i]@);
    assert(state.inst_ok(state.insts[i]));
    assert forall|j: int| 0 <= j < code.insts@[i].operands@.len() implies match (
    #[trigger] code.insts@[i].operands@[j]).data {
        OperandData::VReg(vreg) => vreg.0 < code.vregs@.len(),
        OperandData::Mem(MemoryOperand::Slot(slot)) => slot.0 < code.slots@.len(),
        OperandData::Block(label) => exists|k: usize|
            code.block_map@.contains_key(k) && #[trigger] code.block_map@[k] == label,
        _ => true,
    } by {
        assert(state.operand_ok(state.insts[i].operands[j]));
    }
}

/// Lowers each function of `module`, in order. A function that cannot be
/// lowered has its error in the place of its code; the other functions are
/// not affected.
pub fn compile_module(module: &Module) -> (result: Vec<Result<MachFunction, Error>>)
    requires
        forall|i: int|
            0 <= i < module.functions@.len() ==> (#[trigger] module.functions@[i]).layout.wf(),
    ensures
        result@.len() == module.functions@.len(),
        forall|i: int|
            0 <= i < module.functions@.len() ==> is_lowering_of(
                #[trigger] result@[i],
                &module.functions@[i],
                &module.types,
            ),
{
    let mut result: Vec<Result<MachFunction, Error>> = Vec::new();
    let mut i: usize = 0;
    while i < module.functions.len()
        invariant
            0 <= i <= module.functions@.len(),
            result@.len() == i,
            forall|j: int|
                0 <= j < module.functions@.len() ==> (#[trigger] module.functions@[j]).layout.wf(),
            forall|j: int|
                0 <= j < i ==> is_lowering_of(
                    #[trigger] result@[j],
                    &module.functions@[j],
                    &module.types,
                ),
        decreases module.functions@.len() - i,
    {
        let lowered = compile_function(&module.functions[i], &module.types);
        result.push(lowered);
        i = i + 1;
    }
    result
}

} // verus!
