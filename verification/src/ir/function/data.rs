//! The storage of a function: its instructions, blocks and values.

use crate::arena::{
    alloc_block, alloc_instruction, block_arena, blocks_of, get_block, get_block_mut,
    get_instruction, get_instruction_mut, instruction_arena, instruction_count, instructions_of,
};
use crate::ir::function::basic_block::{BasicBlock, BasicBlockId};
use crate::ir::function::instruction::{Instruction, InstructionId};
use crate::ir::value::{Value, ValueId};
use id_arena::Arena;
use vstd::pervasive::unreached;
use vstd::prelude::*;

verus! {

/// The arenas of one function.
pub struct Data {
    pub instructions: Arena<Instruction>,
    pub basic_blocks: Arena<BasicBlock>,
    pub values: Vec<Value>,
}

impl Data {
    /// The instructions, by arena index.
    pub open spec fn insts(&self) -> Seq<Instruction> {
        instructions_of(self.instructions)
    }

    /// The basic blocks, by arena index.
    pub open spec fn blocks(&self) -> Seq<BasicBlock> {
        blocks_of(self.basic_blocks)
    }

    /// Storage that holds nothing.
    pub fn new() -> (data: Data)
        ensures
            data.insts() == Seq::<Instruction>::empty(),
            data.blocks() == Seq::<BasicBlock>::empty(),
            data.values@ == Seq::<Value>::empty(),
    {
        Data { instructions: instruction_arena(), basic_blocks: block_arena(), values: Vec::new() }
    }

    /// Allocates a block without edges and returns its id.
    pub fn create_block(&mut self) -> (id: BasicBlockId)
        ensures
            id.0 == old(self).blocks().len(),
            final(self).blocks().len() == old(self).blocks().len() + 1,
            final(self).blocks().drop_last() == old(self).blocks(),
            final(self).blocks().last().preds@ == Set::<usize>::empty(),
            final(self).blocks().last().succs@ == Set::<usize>::empty(),
            final(self).insts() == old(self).insts(),
            final(self).values@ == old(self).values@,
    {
        let ghost before = self.blocks();
        let block = BasicBlock::new();
        let index = alloc_block(&mut self.basic_blocks, block);
        assert(before.push(block).drop_last() =~= before);
        BasicBlockId(index)
    }

    /// Allocates `inst`, records its id in it, and returns the id.
    pub fn create_inst(&mut self, inst: Instruction) -> (id: InstructionId)
        ensures
            id.0 == old(self).insts().len(),
            final(self).insts() == old(self).insts().push(
                Instruction { id: Some(id), ..inst },
            ),
            final(self).blocks() == old(self).blocks(),
            final(self).values@ == old(self).values@,
    {
        let id = InstructionId(instruction_count(&self.instructions));
        let mut inst = inst;
        inst.id = Some(id);
        alloc_instruction(&mut self.instructions, inst);
        id
    }

    /// Appends `value` to the value table and returns its id.
    pub fn create_value(&mut self, value: Value) -> (id: ValueId)
        ensures
            id.0 == old(self).values@.len(),
            final(self).values@ == old(self).values@.push(value),
            final(self).insts() == old(self).insts(),
            final(self).blocks() == old(self).blocks(),
    {
        let id = ValueId(self.values.len());
        self.values.push(value);
        id
    }

    /// The instruction that `id` names, if the arena has it.
    pub fn inst(&self, id: InstructionId) -> (inst: Option<&Instruction>)
        ensures
            inst == if id.0 < self.insts().len() {
                Some(&self.insts()[id.0 as int])
            } else {
                None
            },
    {
        get_instruction(&self.instructions, id.0)
    }

    /// The instruction that `id` names.
    pub fn inst_ref(&self, id: InstructionId) -> (inst: &Instruction)
        requires
            id.0 < self.insts().len(),
        ensures
            *inst == self.insts()[id.0 as int],
    {
        match get_instruction(&self.instructions, id.0) {
            Some(inst) => inst,
            None => unreached(),
        }
    }

    /// A unique borrow of the instruction that `id` names. What is written
    /// through it is what the arena holds afterwards; nothing else changes.
    pub fn inst_ref_mut(&mut self, id: InstructionId) -> (inst: &mut Instruction)
        requires
            id.0 < old(self).insts().len(),
        ensures
            *inst == old(self).insts()[id.0 as int],
            final(self).insts() == old(self).insts().update(id.0 as int, *final(inst)),
            final(self).blocks() == old(self).blocks(),
            final(self).values@ == old(self).values@,
    {
        get_instruction_mut(&mut self.instructions, id.0)
    }

    /// The value that `id` names, if the table has it.
    pub fn value(&self, id: ValueId) -> (value: Option<Value>)
        ensures
            value == if id.0 < self.values@.len() {
                Some(self.values@[id.0 as int])
            } else {
                None
            },
    {
        if id.0 < self.values.len() {
            Some(self.values[id.0])
        } else {
            None
        }
    }

    /// The value that `id` names.
    pub fn value_ref(&self, id: ValueId) -> (value: &Value)
        requires
            id.0 < self.values@.len(),
        ensures
            *value == self.values@[id.0 as int],
    {
        &self.values[id.0]
    }

    /// The block that `id` names, if the arena has it.
    pub fn block(&self, id: BasicBlockId) -> (block: Option<&BasicBlock>)
        ensures
            block == if id.0 < self.blocks().len() {
                Some(&self.blocks()[id.0 as int])
            } else {
                None
            },
    {
        get_block(&self.basic_blocks, id.0)
    }

    /// The block that `id` names.
    pub fn block_ref(&self, id: BasicBlockId) -> (block: &BasicBlock)
        requires
            id.0 < self.blocks().len(),
        ensures
            *block == self.blocks()[id.0 as int],
    {
        match get_block(&self.basic_blocks, id.0) {
            Some(block) => block,
            None => unreached(),
        }
    }

    /// A unique borrow of the block that `id` names. What is written through
    /// it is what the arena holds afterwards; nothing else changes.
    pub fn block_ref_mut(&mut self, id: BasicBlockId) -> (block: &mut BasicBlock)
        requires
            id.0 < old(self).blocks().len(),
        ensures
            *block == old(self).blocks()[id.0 as int],
            final(self).blocks() == old(self).blocks().update(id.0 as int, *final(block)),
            final(self).insts() == old(self).insts(),
            final(self).values@ == old(self).values@,
    {
        get_block_mut(&mut self.basic_blocks, id.0)
    }
}

} // verus!
