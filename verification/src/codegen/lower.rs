//! The lowering context: the state that is kept while one function is turned
//! into machine instructions.

use crate::codegen::function::Function as MachFunction;
use crate::codegen::register::{VReg, VRegs};
use crate::codegen::slot::{SlotId, Slots};
use crate::codegen::target::x86_64::instruction::{
    inst_views, InstructionData, Label, MachInst, MemoryOperand, Operand, OperandData,
};
use crate::error::Reason;
use crate::fx::{map_get, map_insert};
use crate::ir::function::basic_block::BasicBlockId;
use crate::ir::function::data::Data;
use crate::ir::function::instruction::{Instruction, InstructionId};
use crate::ir::function::layout::Layout;
use crate::ir::types::{TypeId, TypeView, Types};
use crate::ir::value::{Value, ValueId};
use rustc_hash::FxHashMap;
use vstd::prelude::*;

verus! {

/// What lowering reads and never changes: the function's instructions and
/// values, and the type table.
pub struct Env {
    pub insts: Seq<Instruction>,
    pub values: Seq<Value>,
    pub types: Seq<TypeView>,
}

/// What lowering builds up.
pub struct LowerState {
    /// The type of each virtual register.
    pub vregs: Seq<TypeId>,
    /// The type stored in each stack slot.
    pub slots: Seq<TypeId>,
    /// The virtual register that holds the result of an instruction, by the
    /// instruction's index.
    pub vreg_of: Map<usize, VReg>,
    /// The stack slot of an `alloca`, by the instruction's index.
    pub slot_of: Map<usize, SlotId>,
    /// The label of a block, by the block's index.
    pub labels: Map<usize, Label>,
    /// The machine instructions emitted so far.
    pub insts: Seq<MachInst>,
    /// The block that is being lowered.
    pub cur_block: BasicBlockId,
}

/// The labels of the blocks of a layout: each block has the number of its
/// place in program order.
pub open spec fn labels_for(blocks: Seq<BasicBlockId>) -> Map<usize, Label> {
    Map::new(
        |k: usize| blocks.contains(BasicBlockId(k)),
        |k: usize| Label(blocks.index_of(BasicBlockId(k)) as usize),
    )
}

impl LowerState {
    /// The state before anything is lowered.
    pub open spec fn initial(blocks: Seq<BasicBlockId>) -> LowerState {
        LowerState {
            vregs: Seq::empty(),
            slots: Seq::empty(),
            vreg_of: Map::empty(),
            slot_of: Map::empty(),
            labels: labels_for(blocks),
            insts: Seq::empty(),
            cur_block: BasicBlockId(0),
        }
    }

    /// Some block has the label `label`.
    pub open spec fn has_label(self, label: Label) -> bool {
        exists|k: usize| self.labels.contains_key(k) && #[trigger] self.labels[k] == label
    }

    /// The operand names only what this state has: a virtual register of
    /// the table, a slot of the table, the label of a block.
    pub open spec fn operand_ok(self, operand: Operand) -> bool {
        match operand.data {
            OperandData::VReg(v) => v.0 < self.vregs.len(),
            OperandData::Mem(MemoryOperand::Slot(slot)) => slot.0 < self.slots.len(),
            OperandData::Block(label) => self.has_label(label),
            _ => true,
        }
    }

    /// `inst` is in the form of its operation, and every operand of it is
    /// one that `operand_ok` accepts.
    pub open spec fn inst_ok(self, inst: MachInst) -> bool {
        &&& inst.in_form()
        &&& forall|j: int|
            0 <= j < inst.operands.len() ==> self.operand_ok(#[trigger] inst.operands[j])
    }

    /// The state is consistent: no two instructions share a virtual
    /// register, every register and slot that is recorded or used exists,
    /// every jump target is the label of a block, and every emitted
    /// instruction is in the form of its operation.
    pub open spec fn wf(self) -> bool {
        &&& self.vregs.len() <= usize::MAX
        &&& self.slots.len() <= usize::MAX
        &&& forall|k: usize| #[trigger]
            self.vreg_of.contains_key(k) ==> self.vreg_of[k].0 < self.vregs.len()
        &&& forall|k1: usize, k2: usize|
            #![trigger self.vreg_of[k1], self.vreg_of[k2]]
            self.vreg_of.contains_key(k1) && self.vreg_of.contains_key(k2) && k1 != k2
                ==> self.vreg_of[k1] != self.vreg_of[k2]
        &&& forall|k: usize| #[trigger]
            self.slot_of.contains_key(k) ==> self.slot_of[k].0 < self.slots.len()
        &&& forall|i: int| 0 <= i < self.insts.len() ==> self.inst_ok(#[trigger] self.insts[i])
    }

    /// `later` has everything that `self` has: the registers, slots and
    /// labels, and what was recorded for each instruction.
    pub open spec fn grows_to(self, later: LowerState) -> bool {
        &&& self.vregs.len() <= later.vregs.len()
        &&& self.slots.len() <= later.slots.len()
        &&& self.labels == later.labels
        &&& forall|k: usize| #[trigger]
            self.vreg_of.contains_key(k) ==> later.vreg_of.contains_key(k) && later.vreg_of[k]
                == self.vreg_of[k]
        &&& forall|k: usize| #[trigger]
            self.slot_of.contains_key(k) ==> later.slot_of.contains_key(k)
    }

    /// A fresh virtual register of type `ty`.
    pub open spec fn new_vreg(self, ty: TypeId) -> (LowerState, VReg) {
        (LowerState { vregs: self.vregs.push(ty), ..self }, VReg(self.vregs.len() as usize))
    }

    /// The virtual register for the result of `id`: the one recorded for
    /// it, now of type `ty`, or else a fresh one, which is then recorded. A
    /// recorded register that the table does not have is returned as it
    /// is.
    pub open spec fn output_vreg_for(self, id: InstructionId, ty: TypeId) -> (LowerState, VReg) {
        if self.vreg_of.contains_key(id.0) {
            let vreg = self.vreg_of[id.0];
            if vreg.0 < self.vregs.len() {
                (LowerState { vregs: self.vregs.update(vreg.0 as int, ty), ..self }, vreg)
            } else {
                (self, vreg)
            }
        } else {
            let vreg = VReg(self.vregs.len() as usize);
            (
                LowerState {
                    vregs: self.vregs.push(ty),
                    vreg_of: self.vreg_of.insert(id.0, vreg),
                    ..self
                },
                vreg,
            )
        }
    }

    /// The virtual register that holds the value of `id`.
    ///
    /// The one recorded for `id`, if there is one; the state is then
    /// unchanged. Else, for an instruction of another block than the one
    /// being lowered, a fresh register of type `void`, which is recorded and
    /// gets its type when the instruction itself is lowered. An instruction
    /// of the block being lowered that has no register is not available, and
    /// one that the function does not have is unknown.
    pub open spec fn materialize(self, env: Env, id: InstructionId) -> Result<
        (LowerState, VReg),
        Reason,
    > {
        if self.vreg_of.contains_key(id.0) {
            Ok((self, self.vreg_of[id.0]))
        } else if id.0 >= env.insts.len() {
            Err(Reason::UnknownInstruction)
        } else if env.insts[id.0 as int].parent != self.cur_block {
            Ok(self.output_vreg_for(id, TypeId(0)))
        } else {
            Err(Reason::Unavailable)
        }
    }

    /// The state with `inst` at the end of the emitted instructions.
    pub open spec fn emit(self, inst: MachInst) -> LowerState {
        LowerState { insts: self.insts.push(inst), ..self }
    }

    /// The state with a new slot of type `ty` recorded for `id`.
    pub open spec fn add_slot(self, id: InstructionId, ty: TypeId) -> LowerState {
        LowerState {
            slots: self.slots.push(ty),
            slot_of: self.slot_of.insert(id.0, SlotId(self.slots.len() as usize)),
            ..self
        }
    }

    /// The state when lowering turns to `block`.
    pub open spec fn enter(self, block: BasicBlockId) -> LowerState {
        LowerState { cur_block: block, ..self }
    }
}

/// An operand that a state accepts is accepted by every state that it grows
/// to.
pub proof fn lemma_grows_keeps_operands(s: LowerState, later: LowerState)
    requires
        s.grows_to(later),
    ensures
        forall|operand: Operand| s.operand_ok(operand) ==> #[trigger] later.operand_ok(operand),
        forall|inst: MachInst| s.inst_ok(inst) ==> #[trigger] later.inst_ok(inst),
{
    assert forall|operand: Operand| s.operand_ok(operand) implies #[trigger] later.operand_ok(
        operand,
    ) by {
        if let OperandData::Block(label) = operand.data {
            let k = choose|k: usize| s.labels.contains_key(k) && #[trigger] s.labels[k] == label;
            assert(later.labels.contains_key(k) && later.labels[k] == label);
        }
    }
    assert forall|inst: MachInst| s.inst_ok(inst) implies #[trigger] later.inst_ok(inst) by {
        assert forall|j: int| 0 <= j < inst.operands.len() implies later.operand_ok(
            #[trigger] inst.operands[j],
        ) by {
            assert(s.operand_ok(inst.operands[j]));
        }
    }
}

/// Growth is transitive.
pub proof fn lemma_grows_twice(first: LowerState, second: LowerState, third: LowerState)
    requires
        first.grows_to(second),
        second.grows_to(third),
    ensures
        first.grows_to(third),
{
}

/// A state that differs from a consistent one only in having more registers
/// or slots, or another current block, is consistent.
pub proof fn lemma_same_records_wf(s: LowerState, later: LowerState)
    requires
        s.wf(),
        s.grows_to(later),
        later.vregs.len() <= usize::MAX,
        later.slots.len() <= usize::MAX,
        later.vreg_of == s.vreg_of,
        later.slot_of == s.slot_of,
        later.insts == s.insts,
    ensures
        later.wf(),
{
    lemma_grows_keeps_operands(s, later);
    assert forall|i: int| 0 <= i < later.insts.len() implies later.inst_ok(
        #[trigger] later.insts[i],
    ) by {
        assert(s.inst_ok(s.insts[i]));
    }
}

/// Where the register table has room, `output_vreg_for` keeps the state
/// consistent and only adds to it. The register it returns exists, is the
/// one recorded for `id` afterwards, and has the type asked for. No register
/// is added when one was recorded.
pub proof fn lemma_output_vreg_for(s: LowerState, id: InstructionId, ty: TypeId)
    requires
        s.wf(),
        s.output_vreg_for(id, ty).0.vregs.len() <= usize::MAX,
    ensures
        s.output_vreg_for(id, ty).0.wf(),
        s.grows_to(s.output_vreg_for(id, ty).0),
        s.output_vreg_for(id, ty).0.insts == s.insts,
        s.output_vreg_for(id, ty).0.slots == s.slots,
        s.output_vreg_for(id, ty).0.slot_of == s.slot_of,
        s.output_vreg_for(id, ty).1.0 < s.output_vreg_for(id, ty).0.vregs.len(),
        s.output_vreg_for(id, ty).0.vreg_of.contains_key(id.0),
        s.output_vreg_for(id, ty).0.vreg_of[id.0] == s.output_vreg_for(id, ty).1,
        s.output_vreg_for(id, ty).0.vregs[s.output_vreg_for(id, ty).1.0 as int] == ty,
        s.vreg_of.contains_key(id.0) ==> s.output_vreg_for(id, ty).1 == s.vreg_of[id.0]
            && s.output_vreg_for(id, ty).0.vregs.len() == s.vregs.len(),
{
    let (later, vreg) = s.output_vreg_for(id, ty);
    lemma_grows_keeps_operands(s, later);
    assert forall|i: int| 0 <= i < later.insts.len() implies later.inst_ok(
        #[trigger] later.insts[i],
    ) by {
        assert(s.inst_ok(s.insts[i]));
    }
}

/// Where the register table has room, `materialize` keeps the state
/// consistent and only adds to it, and the register it returns exists and is
/// the one recorded for `id` afterwards.
pub proof fn lemma_materialize(s: LowerState, env: Env, id: InstructionId)
    requires
        s.wf(),
        s.vregs.len() < usize::MAX,
    ensures
        match s.materialize(env, id) {
            Ok((later, vreg)) => {
                &&& later.wf()
                &&& s.grows_to(later)
                &&& later.insts == s.insts
                &&& later.slots == s.slots
                &&& later.slot_of == s.slot_of
                &&& vreg.0 < later.vregs.len()
                &&& later.vreg_of.contains_key(id.0)
                &&& later.vreg_of[id.0] == vreg
            },
            Err(_) => true,
        },
{
    if !s.vreg_of.contains_key(id.0) {
        lemma_output_vreg_for(s, id, TypeId(0));
    }
}

/// Emitting an instruction whose operands the state accepts keeps the state
/// consistent.
pub proof fn lemma_emit(s: LowerState, inst: MachInst)
    requires
        s.wf(),
        s.inst_ok(inst),
    ensures
        s.emit(inst).wf(),
        s.grows_to(s.emit(inst)),
{
    let later = s.emit(inst);
    lemma_grows_keeps_operands(s, later);
    assert forall|i: int| 0 <= i < later.insts.len() implies later.inst_ok(
        #[trigger] later.insts[i],
    ) by {
        if i < s.insts.len() {
            assert(s.inst_ok(s.insts[i]));
        }
    }
}

/// Where the slot table has room, recording a new slot keeps the state
/// consistent.
pub proof fn lemma_add_slot(s: LowerState, id: InstructionId, ty: TypeId)
    requires
        s.wf(),
        s.slots.len() < usize::MAX,
    ensures
        s.add_slot(id, ty).wf(),
        s.grows_to(s.add_slot(id, ty)),
{
    let later = s.add_slot(id, ty);
    lemma_grows_keeps_operands(s, later);
    assert forall|i: int| 0 <= i < later.insts.len() implies later.inst_ok(
        #[trigger] later.insts[i],
    ) by {
        assert(s.inst_ok(s.insts[i]));
    }
}

/// An instruction has one virtual register, however often and in whatever
/// order `materialize` and `output_vreg_for` are asked for it: the second
/// call returns the register of the first and allocates none, and giving a
/// register the type it has changes nothing.
pub proof fn lemma_one_register_per_instruction(
    s: LowerState,
    env: Env,
    id: InstructionId,
    first: TypeId,
    second: TypeId,
)
    requires
        s.wf(),
        s.vregs.len() < usize::MAX,
    ensures
        s.output_vreg_for(id, first).0.output_vreg_for(id, second).1 == s.output_vreg_for(
            id,
            first,
        ).1,
        s.output_vreg_for(id, first).0.output_vreg_for(id, second).0.vregs.len()
            == s.output_vreg_for(id, first).0.vregs.len(),
        s.output_vreg_for(id, first).0.output_vreg_for(id, second).0.vreg_of == s.output_vreg_for(
            id,
            first,
        ).0.vreg_of,
        s.output_vreg_for(id, first).0.output_vreg_for(id, first) == s.output_vreg_for(id, first),
        s.output_vreg_for(id, first).0.materialize(env, id) == Ok::<(LowerState, VReg), Reason>(
            s.output_vreg_for(id, first),
        ),
        match s.materialize(env, id) {
            Ok((after, vreg)) => {
                &&& after.materialize(env, id) == Ok::<(LowerState, VReg), Reason>((after, vreg))
                &&& after.output_vreg_for(id, first).1 == vreg
                &&& after.output_vreg_for(id, first).0.vregs.len() == after.vregs.len()
                &&& after.output_vreg_for(id, first).0.vreg_of == after.vreg_of
            },
            Err(_) => true,
        },
{
    let (once, vreg) = s.output_vreg_for(id, first);
    let (twice, again) = once.output_vreg_for(id, first);
    lemma_output_vreg_for(s, id, first);
    assert(twice.vregs =~= once.vregs);
    lemma_materialize(s, env, id);
}

/// A register that was handed out for an instruction of another block stays
/// the register of that instruction: in every consistent state that the
/// state after `materialize` grows to, `output_vreg_for` returns that
/// register for the instruction, allocates none, and gives it the type
/// asked for.
pub proof fn lemma_placeholder_is_kept(
    s: LowerState,
    env: Env,
    id: InstructionId,
    later: LowerState,
    ty: TypeId,
)
    requires
        s.materialize(env, id) is Ok,
        s.materialize(env, id)->Ok_0.0.grows_to(later),
        later.wf(),
    ensures
        later.output_vreg_for(id, ty).1 == s.materialize(env, id)->Ok_0.1,
        later.output_vreg_for(id, ty).0.vregs.len() == later.vregs.len(),
        later.output_vreg_for(id, ty).0.vreg_of == later.vreg_of,
        later.output_vreg_for(id, ty).0.vregs[later.output_vreg_for(id, ty).1.0 as int] == ty,
{
    let (after, vreg) = s.materialize(env, id)->Ok_0;
    assert(after.vreg_of.contains_key(id.0));
    assert(later.vreg_of.contains_key(id.0));
}

/// The state that is kept while one function is lowered.
pub struct LoweringContext<'a> {
    ir_data: &'a Data,
    types: &'a Types,
    vregs: VRegs,
    slots: Slots,
    inst_id_to_vreg: FxHashMap<usize, VReg>,
    inst_id_to_slot_id: FxHashMap<usize, SlotId>,
    block_map: FxHashMap<usize, Label>,
    inst_seq: Vec<InstructionData>,
    cur_block: BasicBlockId,
}

impl<'a> View for LoweringContext<'a> {
    type V = LowerState;

    closed spec fn view(&self) -> LowerState {
        LowerState {
            vregs: self.vregs@,
            slots: self.slots@,
            vreg_of: self.inst_id_to_vreg@,
            slot_of: self.inst_id_to_slot_id@,
            labels: self.block_map@,
            insts: inst_views(self.inst_seq@),
            cur_block: self.cur_block,
        }
    }
}

impl<'a> LoweringContext<'a> {
    /// What the context reads.
    pub closed spec fn env(&self) -> Env {
        Env { insts: self.ir_data.insts(), values: self.ir_data.values@, types: self.types@ }
    }

    /// The function's storage.
    pub closed spec fn data(&self) -> &'a Data {
        self.ir_data
    }

    /// Validity of the context: that of its state.
    pub open spec fn wf(&self) -> bool {
        self@.wf()
    }

    /// A context for the function stored in `ir_data` and laid out by
    /// `layout`, before anything is lowered. Each block of the layout gets
    /// the number of its place as its label.
    pub fn new(ir_data: &'a Data, types: &'a Types, layout: &Layout) -> (ctx: LoweringContext<'a>)
        requires
            layout.wf(),
        ensures
            ctx.wf(),
            ctx@ == LowerState::initial(layout.blocks()),
            ctx.env() == (Env {
                insts: ir_data.insts(),
                values: ir_data.values@,
                types: types@,
            }),
            ctx.data() == ir_data,
    {
        let mut block_map: FxHashMap<usize, Label> = FxHashMap::default();
        let mut iter = layout.block_iter();
        let mut next: usize = 0;
        let ghost blocks = layout.blocks();
        proof {
            layout.lemma_wf_facts();
        }
        loop
            invariant
                iter.wf(),
                iter.layout() == layout,
                blocks == layout.blocks(),
                blocks.no_duplicates(),
                blocks.len() <= usize::MAX + 1,
                0 <= iter.position() <= blocks.len(),
                iter.position() < blocks.len() ==> next == iter.position(),
                forall|k: usize| #[trigger]
                    block_map@.contains_key(k) ==> exists|i: int|
                        0 <= i < iter.position() && blocks[i] == BasicBlockId(k),
                forall|i: int|
                    0 <= i < iter.position() ==> block_map@.contains_key((#[trigger] blocks[i]).0)
                        && block_map@[blocks[i].0] == Label(i as usize),
            ensures
                iter.position() == blocks.len(),
                forall|k: usize| #[trigger]
                    block_map@.contains_key(k) ==> exists|i: int|
                        0 <= i < blocks.len() && blocks[i] == BasicBlockId(k),
                forall|i: int|
                    0 <= i < blocks.len() ==> block_map@.contains_key((#[trigger] blocks[i]).0)
                        && block_map@[blocks[i].0] == Label(i as usize),
            decreases blocks.len() - iter.position(),
        {
            let ghost pos = iter.position();
            let ghost before = block_map@;
            match iter.next() {
                Some(block) => {
                    proof {
                        if before.contains_key(block.0) {
                            let i = choose|i: int| 0 <= i < pos && blocks[i] == BasicBlockId(block.0);
                            assert(blocks[pos] == blocks[i]);
                        }
                    }
                    map_insert(&mut block_map, block.0, Label(next));
                    if next < usize::MAX {
                        next = next + 1;
                    }
                    assert forall|k: usize| #[trigger] block_map@.contains_key(k) implies exists|
                        i: int,
                    |
                        0 <= i < iter.position() && blocks[i] == BasicBlockId(k) by {
                        if k == block.0 {
                            assert(blocks[pos] == BasicBlockId(k));
                        } else {
                            let i = choose|i: int| 0 <= i < pos && blocks[i] == BasicBlockId(k);
                            assert(0 <= i < iter.position() && blocks[i] == BasicBlockId(k));
                        }
                    }
                },
                None => {
                    break ;
                },
            }
        }
        let ctx = LoweringContext {
            ir_data,
            types,
            vregs: VRegs::new(),
            slots: Slots::new(),
            inst_id_to_vreg: FxHashMap::default(),
            inst_id_to_slot_id: FxHashMap::default(),
            block_map,
            inst_seq: Vec::new(),
            cur_block: BasicBlockId(0),
        };
        proof {
            let target = labels_for(blocks);
            assert forall|k: usize| block_map@.contains_key(k) == target.contains_key(k) by {
                if target.contains_key(k) {
                    let i = blocks.index_of(BasicBlockId(k));
                    assert(block_map@.contains_key(blocks[i].0));
                }
            }
            assert forall|k: usize| block_map@.contains_key(k) implies block_map@[k] == target[k] by {
                let i = blocks.index_of(BasicBlockId(k));
                assert(block_map@.contains_key(blocks[i].0));
            }
            assert(block_map@ =~= target);
            assert(ctx@.insts =~= Seq::<MachInst>::empty());
        }
        ctx
    }

    /// The instruction that `id` names, if the function has it.
    pub fn inst(&self, id: InstructionId) -> (inst: Option<&'a Instruction>)
        ensures
            inst == if id.0 < self.env().insts.len() {
                Some(&self.env().insts[id.0 as int])
            } else {
                None
            },
    {
        self.ir_data.inst(id)
    }

    /// The value that `id` names, if the function has it.
    pub fn value(&self, id: ValueId) -> (value: Option<Value>)
        ensures
            value == if id.0 < self.env().values.len() {
                Some(self.env().values[id.0 as int])
            } else {
                None
            },
    {
        self.ir_data.value(id)
    }

    /// Whether `ty` is the 32-bit integer type.
    pub fn is_i32(&self, ty: TypeId) -> (yes: bool)
        ensures
            yes == (ty.0 < self.env().types.len() && self.env().types[ty.0 as int]
                == TypeView::Int(32)),
    {
        self.types.is_i32(ty)
    }

    /// The virtual register recorded for `id`, if any.
    pub fn vreg_for(&self, id: InstructionId) -> (vreg: Option<VReg>)
        ensures
            vreg == if self@.vreg_of.contains_key(id.0) {
                Some(self@.vreg_of[id.0])
            } else {
                None
            },
    {
        match map_get(&self.inst_id_to_vreg, id.0) {
            Some(vreg) => Some(*vreg),
            None => None,
        }
    }

    /// The stack slot recorded for `id`, if any.
    pub fn slot_for(&self, id: InstructionId) -> (slot: Option<SlotId>)
        ensures
            slot == if self@.slot_of.contains_key(id.0) {
                Some(self@.slot_of[id.0])
            } else {
                None
            },
    {
        match map_get(&self.inst_id_to_slot_id, id.0) {
            Some(slot) => Some(*slot),
            None => None,
        }
    }

    /// The label of `block`, if it has one.
    pub fn label_for(&self, block: BasicBlockId) -> (label: Option<Label>)
        ensures
            label == if self@.labels.contains_key(block.0) {
                Some(self@.labels[block.0])
            } else {
                None
            },
            label is Some ==> self@.has_label(label->0),
    {
        match map_get(&self.block_map, block.0) {
            Some(label) => {
                assert(self@.labels.contains_key(block.0) && self@.labels[block.0] == *label);
                Some(*label)
            },
            None => None,
        }
    }

    /// The type of `vreg`, if the function has it.
    pub fn vreg_type(&self, vreg: VReg) -> (ty: Option<TypeId>)
        ensures
            ty == if vreg.0 < self@.vregs.len() {
                Some(self@.vregs[vreg.0 as int])
            } else {
                None
            },
    {
        self.vregs.type_for(vreg)
    }

    /// The number of machine instructions emitted so far.
    pub fn emitted(&self) -> (n: usize)
        ensures
            n == self@.insts.len(),
    {
        self.inst_seq.len()
    }

    /// Turns to `block`: values of other blocks are from now on those that
    /// `block` does not own.
    pub fn enter_block(&mut self, block: BasicBlockId)
        requires
            old(self).wf(),
        ensures
            final(self).wf(),
            final(self)@ == old(self)@.enter(block),
            final(self).env() == old(self).env(),
            final(self).data() == old(self).data(),
    {
        let ghost before = self@;
        self.cur_block = block;
        proof {
            lemma_same_records_wf(before, self@);
        }
    }

    /// Allocates and returns a fresh virtual register of type `ty`.
    pub fn new_vreg(&mut self, ty: TypeId) -> (vreg: VReg)
        requires
            old(self).wf(),
        ensures
            final(self).wf(),
            (final(self)@, vreg) == old(self)@.new_vreg(ty),
            old(self)@.grows_to(final(self)@),
            final(self).env() == old(self).env(),
            final(self).data() == old(self).data(),
    {
        let ghost before = self@;
        let vreg = self.vregs.add_vreg_data(ty);
        let n = self.vregs.len();
        proof {
            lemma_same_records_wf(before, self@);
        }
        vreg
    }

    /// The virtual register for the result of `id`, with type `ty`. The
    /// register recorded for `id` is returned and given the type `ty`;
    /// where none is recorded, a fresh one is allocated and recorded. So an
    /// instruction has one register however often this is called.
    pub fn output_vreg_for(&mut self, id: InstructionId, ty: TypeId) -> (vreg: VReg)
        requires
            old(self).wf(),
        ensures
            final(self).wf(),
            (final(self)@, vreg) == old(self)@.output_vreg_for(id, ty),
            old(self)@.grows_to(final(self)@),
            vreg.0 < final(self)@.vregs.len(),
            final(self).env() == old(self).env(),
            final(self).data() == old(self).data(),
    {
        let ghost before = self@;
        match self.vreg_for(id) {
            Some(vreg) => {
                self.vregs.change_ty(vreg, ty);
                proof {
                    lemma_output_vreg_for(before, id, ty);
                }
                vreg
            },
            None => {
                let vreg = self.vregs.add_vreg_data(ty);
                let n = self.vregs.len();
                map_insert(&mut self.inst_id_to_vreg, id.0, vreg);
                proof {
                    lemma_output_vreg_for(before, id, ty);
                }
                vreg
            },
        }
    }

    /// The virtual register that holds the value produced by `id`, as
    /// `LowerState::materialize` defines it. Nothing changes when it fails.
    pub fn materialize(&mut self, id: InstructionId) -> (result: Result<VReg, Reason>)
        requires
            old(self).wf(),
        ensures
            final(self).wf(),
            final(self).env() == old(self).env(),
            final(self).data() == old(self).data(),
            match old(self)@.materialize(old(self).env(), id) {
                Ok((state, vreg)) => result == Ok::<VReg, Reason>(vreg) && final(self)@ == state,
                Err(reason) => result == Err::<VReg, Reason>(reason) && final(self)@ == old(self)@,
            },
            old(self)@.grows_to(final(self)@),
            final(self)@.insts == old(self)@.insts,
            result is Ok ==> (result->Ok_0).0 < final(self)@.vregs.len(),
    {
        if let Some(vreg) = self.vreg_for(id) {
            return Ok(vreg);
        }
        match self.ir_data.inst(id) {
            None => Err(Reason::UnknownInstruction),
            Some(inst) => {
                if inst.parent.0 != self.cur_block.0 {
                    Ok(self.output_vreg_for(id, self.types.void()))
                } else {
                    Err(Reason::Unavailable)
                }
            },
        }
    }

    /// Allocates a stack slot for a value of type `ty` and records it for
    /// `id`.
    pub fn add_slot(&mut self, id: InstructionId, ty: TypeId) -> (slot: SlotId)
        requires
            old(self).wf(),
        ensures
            final(self).wf(),
            final(self)@ == old(self)@.add_slot(id, ty),
            old(self)@.grows_to(final(self)@),
            slot.0 == old(self)@.slots.len(),
            final(self).env() == old(self).env(),
            final(self).data() == old(self).data(),
    {
        let ghost before = self@;
        let slot = self.slots.add_slot(ty);
        let n = self.slots.len();
        map_insert(&mut self.inst_id_to_slot_id, id.0, slot);
        proof {
            lemma_add_slot(before, id, ty);
        }
        slot
    }

    /// Appends `inst` to the emitted instructions.
    pub fn emit(&mut self, inst: InstructionData)
        requires
            old(self).wf(),
            old(self)@.inst_ok(inst@),
        ensures
            final(self).wf(),
            final(self)@ == old(self)@.emit(inst@),
            old(self)@.grows_to(final(self)@),
            final(self).env() == old(self).env(),
            final(self).data() == old(self).data(),
    {
        let ghost before = self@;
        let ghost shown = inst@;
        self.inst_seq.push(inst);
        proof {
            assert(self@.insts =~= before.insts.push(shown));
            lemma_emit(before, shown);
        }
    }

    /// Hands over what was built: the emitted instructions, the registers,
    /// the slots and the labels, together with the index at which each
    /// block starts.
    pub fn finish(self, block_starts: Vec<usize>) -> (function: MachFunction)
        requires
            self.wf(),
        ensures
            function.state(self@.cur_block) == self@,
            function.block_starts@ == block_starts@,
    {
        MachFunction {
            insts: self.inst_seq,
            block_starts,
            vregs: self.vregs,
            slots: self.slots,
            inst_id_to_vreg: self.inst_id_to_vreg,
            inst_id_to_slot_id: self.inst_id_to_slot_id,
            block_map: self.block_map,
        }
    }
}

} // verus!
