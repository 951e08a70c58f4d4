//! Nodes of a dependency graph.

use crate::ir::function::basic_block::BasicBlockId;
use vstd::prelude::*;

verus! {

/// Index of a node in a function's node arena.
#[derive(Clone, Copy, Debug, PartialEq, Eq, Structural, Hash)]
pub struct NodeId(pub usize);

/// What a target puts into the nodes of its graphs.
pub trait NodeData: Clone + core::fmt::Debug + Sized {
    /// Whether this is the payload of a root.
    spec fn is_root(&self) -> bool;

    /// The nodes that a node with this payload depends on.
    spec fn arg_ids(&self) -> Seq<NodeId>;

    /// The text that labels a node with this payload in a drawing.
    spec fn label(&self) -> Seq<char>;

    /// The payload of a root: it depends on nothing.
    fn root() -> (data: Self)
        ensures
            data.is_root(),
            data.arg_ids() == Seq::<NodeId>::empty(),
    ;

    /// The text that labels a node with this payload in a drawing.
    fn dot_label(&self) -> (text: String)
        ensures
            text@ == self.label(),
    ;

    /// The nodes that a node with this payload depends on.
    fn args(&self) -> (args: &[NodeId])
        ensures
            args@ == self.arg_ids(),
    ;
}

/// A node: its payload, the block of the intermediate representation that
/// it belongs to, and the node that follows it on the block's chain.
#[derive(Debug)]
pub struct Node<Data: NodeData> {
    /// The node's own id, set when it is placed in an arena.
    pub id: Option<NodeId>,
    pub data: Data,
    pub parent: BasicBlockId,
    pub chain: Option<NodeId>,
}

impl<Data: NodeData> Node<Data> {
    /// A node outside any arena and chain.
    pub fn new(data: Data, parent: BasicBlockId) -> (node: Node<Data>)
        ensures
            node.id is None,
            node.data == data,
            node.parent == parent,
            node.chain is None,
    {
        Node { id: None, data, parent, chain: None }
    }

    /// A root outside any arena and chain.
    pub fn root(parent: BasicBlockId) -> (node: Node<Data>)
        ensures
            node.id is None,
            node.data.is_root(),
            node.data.arg_ids() == Seq::<NodeId>::empty(),
            node.parent == parent,
            node.chain is None,
    {
        Node { id: None, data: Data::root(), parent, chain: None }
    }

    /// Makes `id` the node that follows this one on the chain.
    pub fn set_chain(&mut self, id: NodeId)
        ensures
            final(self).chain == Some(id),
            final(self).id == old(self).id,
            final(self).data == old(self).data,
            final(self).parent == old(self).parent,
    {
        self.chain = Some(id)
    }
}

} // verus!
