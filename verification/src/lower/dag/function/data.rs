//! The storage of a dependency graph: its nodes and its blocks.

use crate::arena::{
    alloc_block, alloc_node, block_arena, blocks_of, get_block, get_block_mut, get_node,
    get_node_mut, node_arena, node_count, nodes_of,
};
use crate::ir::function::basic_block::{BasicBlock, BasicBlockId};
use crate::lower::dag::function::node::{Node, NodeId};
use crate::targets::x86_64::dag::function::node::NodeData;
use id_arena::Arena;
use vstd::pervasive::unreached;
use vstd::prelude::*;

verus! {

/// The arenas of one dependency graph.
pub struct Data {
    pub nodes: Arena<Node<NodeData>>,
    pub basic_blocks: Arena<BasicBlock>,
}

impl Data {
    /// The nodes, by arena index.
    pub open spec fn node_seq(&self) -> Seq<Node<NodeData>> {
        nodes_of(self.nodes)
    }

    /// The basic blocks, by arena index.
    pub open spec fn blocks(&self) -> Seq<BasicBlock> {
        blocks_of(self.basic_blocks)
    }

    /// Storage that holds nothing.
    pub fn new() -> (data: Data)
        ensures
            data.node_seq() == Seq::<Node<NodeData>>::empty(),
            data.blocks() == Seq::<BasicBlock>::empty(),
    {
        Data { nodes: node_arena(), basic_blocks: block_arena() }
    }

    /// Allocates a block without edges and returns its id.
    pub fn create_block(&mut self) -> (id: BasicBlockId)
        ensures
            id.0 == old(self).blocks().len(),
            final(self).blocks().len() == old(self).blocks().len() + 1,
            final(self).blocks().drop_last() == old(self).blocks(),
            final(self).blocks().last().preds@ == Set::<usize>::empty(),
            final(self).blocks().last().succs@ == Set::<usize>::empty(),
            final(self).node_seq() == old(self).node_seq(),
    {
        let ghost before = self.blocks();
        let block = BasicBlock::new();
        let index = alloc_block(&mut self.basic_blocks, block);
        assert(before.push(block).drop_last() =~= before);
        BasicBlockId(index)
    }

    /// Allocates `node`, records its id in it, and returns the id.
    pub fn create_node(&mut self, node: Node<NodeData>) -> (id: NodeId)
        ensures
            id.0 == old(self).node_seq().len(),
            final(self).node_seq() == old(self).node_seq().push(
                Node { id: Some(id), ..node },
            ),
            final(self).blocks() == old(self).blocks(),
    {
        let id = NodeId(node_count(&self.nodes));
        let mut node = node;
        node.id = Some(id);
        alloc_node(&mut self.nodes, node);
        id
    }

    /// The node that `id` names, if the arena has it.
    pub fn node(&self, id: NodeId) -> (node: Option<&Node<NodeData>>)
        ensures
            node == if id.0 < self.node_seq().len() {
                Some(&self.node_seq()[id.0 as int])
            } else {
                None
            },
    {
        get_node(&self.nodes, id.0)
    }

    /// The node that `id` names.
    pub fn node_ref(&self, id: NodeId) -> (node: &Node<NodeData>)
        requires
            id.0 < self.node_seq().len(),
        ensures
            *node == self.node_seq()[id.0 as int],
    {
        match get_node(&self.nodes, id.0) {
            Some(node) => node,
            None => unreached(),
        }
    }

    /// A unique borrow of the node that `id` names. What is written through
    /// it is what the arena holds afterwards; nothing else changes.
    pub fn node_ref_mut(&mut self, id: NodeId) -> (node: &mut Node<NodeData>)
        requires
            id.0 < old(self).node_seq().len(),
        ensures
            *node == old(self).node_seq()[id.0 as int],
            final(self).node_seq() == old(self).node_seq().update(id.0 as int, *final(node)),
            final(self).blocks() == old(self).blocks(),
    {
        get_node_mut(&mut self.nodes, id.0)
    }

    /// The block that `id` names, if the arena has it.
    pub fn block(&self, id: BasicBlockId) -> (block: Option<&BasicBlock>)
        ensures
            block == if id.0 < self.blocks().len() {
                Some(&self.blocks()[id.0 as int])
            } else {
                None
            },
    {
        get_block(&self.basic_blocks, id.0)
    }

    /// The block that `id` names.
    pub fn block_ref(&self, id: BasicBlockId) -> (block: &BasicBlock)
        requires
            id.0 < self.blocks().len(),
        ensures
            *block == self.blocks()[id.0 as int],
    {
        match get_block(&self.basic_blocks, id.0) {
            Some(block) => block,
            None => unreached(),
        }
    }

    /// A unique borrow of the block that `id` names. What is written through
    /// it is what the arena holds afterwards; nothing else changes.
    pub fn block_ref_mut(&mut self, id: BasicBlockId) -> (block: &mut BasicBlock)
        requires
            id.0 < old(self).blocks().len(),
        ensures
            *block == old(self).blocks()[id.0 as int],
            final(self).blocks() == old(self).blocks().update(id.0 as int, *final(block)),
            final(self).node_seq() == old(self).node_seq(),
    {
        get_block_mut(&mut self.basic_blocks, id.0)
    }
}

} // verus!
