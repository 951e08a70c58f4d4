//! The machine code of one function.

use crate::codegen::lower::LowerState;
use crate::codegen::register::{VReg, VRegs};
use crate::codegen::slot::{SlotId, Slots};
use crate::codegen::target::x86_64::instruction::{inst_views, InstructionData, Label};
use crate::fx::map_get;
use crate::ir::function::basic_block::BasicBlockId;
use crate::ir::function::instruction::InstructionId;
use rustc_hash::FxHashMap;
use vstd::prelude::*;

verus! {

/// A function as lowering leaves it: virtual registers are not yet bound to
/// physical ones and stack slots have no frame offset.
pub struct Function {
    /// The instructions in program order.
    pub insts: Vec<InstructionData>,
    /// For each block, by label, the index in `insts` at which it starts.
    pub block_starts: Vec<usize>,
    /// The virtual registers and their types.
    pub vregs: VRegs,
    /// The stack slots and the types stored in them.
    pub slots: Slots,
    /// The virtual register of each instruction result, by the
    /// instruction's index.
    pub inst_id_to_vreg: FxHashMap<usize, VReg>,
    /// The stack slot of each `alloca`, by the instruction's index.
    pub inst_id_to_slot_id: FxHashMap<usize, SlotId>,
    /// The label of each block, by the block's index.
    pub block_map: FxHashMap<usize, Label>,
}

impl Function {
    /// The lowering state that this function holds, seen from `block`.
    pub open spec fn state(&self, block: BasicBlockId) -> LowerState {
        LowerState {
            vregs: self.vregs@,
            slots: self.slots@,
            vreg_of: self.inst_id_to_vreg@,
            slot_of: self.inst_id_to_slot_id@,
            labels: self.block_map@,
            insts: inst_views(self.insts@),
            cur_block: block,
        }
    }

    /// The label of `block`, if it has one.
    pub fn label_of(&self, block: BasicBlockId) -> (label: Option<Label>)
        ensures
            label == if self.block_map@.contains_key(block.0) {
                Some(self.block_map@[block.0])
            } else {
                None
            },
    {
        match map_get(&self.block_map, block.0) {
            Some(label) => Some(*label),
            None => None,
        }
    }

    /// The virtual register that holds the result of `inst`, if it has one.
    pub fn vreg_of(&self, inst: InstructionId) -> (vreg: Option<VReg>)
        ensures
            vreg == if self.inst_id_to_vreg@.contains_key(inst.0) {
                Some(self.inst_id_to_vreg@[inst.0])
            } else {
                None
            },
    {
        match map_get(&self.inst_id_to_vreg, inst.0) {
            Some(vreg) => Some(*vreg),
            None => None,
        }
    }

    /// The stack slot of the `alloca` `inst`, if it has one.
    pub fn slot_of(&self, inst: InstructionId) -> (slot: Option<SlotId>)
        ensures
            slot == if self.inst_id_to_slot_id@.contains_key(inst.0) {
                Some(self.inst_id_to_slot_id@[inst.0])
            } else {
                None
            },
    {
        match map_get(&self.inst_id_to_slot_id, inst.0) {
            Some(slot) => Some(*slot),
            None => None,
        }
    }
}

} // verus!
