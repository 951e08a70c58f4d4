//! Construction of dependency graphs from the intermediate representation.

pub mod convert;
pub mod dot;
pub mod edges;
pub mod function;
pub mod module;
pub mod shape;

pub use crate::error::Error;
pub use crate::lower::dag::convert::{convert_function, convert_module};

use crate::ir::function::basic_block::BasicBlockId;
use crate::ir::function::data::Data as IrData;
use crate::lower::dag::function::data::Data as DagData;
use crate::lower::dag::function::node::{Node, NodeId};
use crate::targets::x86_64::dag::function::node::{NodeData, NodeDataView};
use vstd::prelude::*;

verus! {

/// The mathematical value of a node.
pub struct NodeView {
    pub id: Option<NodeId>,
    pub data: NodeDataView,
    pub parent: BasicBlockId,
    pub chain: Option<NodeId>,
}

/// The value of `node`.
pub open spec fn node_view(node: Node<NodeData>) -> NodeView {
    NodeView { id: node.id, data: node.data@, parent: node.parent, chain: node.chain }
}

/// The values of `nodes`.
pub open spec fn node_views(nodes: Seq<Node<NodeData>>) -> Seq<NodeView> {
    Seq::new(nodes.len(), |i: int| node_view(nodes[i]))
}

/// What a conversion rule works on: the function that is read, the graph
/// that is built, and the block whose instructions are being converted.
pub struct Context<'a> {
    pub ir_data: &'a IrData,
    pub dag_data: DagData,
    pub block: BasicBlockId,
}

impl<'a> Context<'a> {
    /// The nodes built so far.
    pub open spec fn nodes(&self) -> Seq<NodeView> {
        node_views(self.dag_data.node_seq())
    }

    /// Allocates a node with payload `data` for the current block and
    /// returns its id: the node is appended, with its own id, outside any
    /// chain.
    pub fn create_node(&mut self, data: NodeData) -> (id: NodeId)
        ensures
            id.0 == old(self).nodes().len(),
            final(self).nodes() == old(self).nodes().push(
                NodeView { id: Some(id), data: data@, parent: old(self).block, chain: None },
            ),
            final(self).ir_data == old(self).ir_data,
            final(self).block == old(self).block,
            final(self).dag_data.blocks() == old(self).dag_data.blocks(),
    {
        let ghost before = self.nodes();
        let ghost shown = data@;
        let id = self.dag_data.create_node(Node::new(data, self.block));
        assert(self.nodes() =~= before.push(
            NodeView { id: Some(id), data: shown, parent: self.block, chain: None },
        ));
        id
    }
}

} // verus!
