//! The shape of the graphs that conversion builds: one root for each block,
//! a chain from the root through the nodes of the block's instructions, and
//! arguments that come before the nodes that use them.

use crate::error::Error;
use crate::ir::function::basic_block::BasicBlockId;
use crate::ir::function::instruction::{Instruction as IrInst, InstructionId};
use crate::ir::function::layout::at;
use crate::ir::function::Function as IrFunction;
use crate::ir::value::Value;
use crate::lower::dag::convert::{
    convert_block_spec, convert_blocks_spec, convert_function_spec, root_index, with_chain, Block,
};
use crate::lower::dag::function::node::NodeId;
use crate::lower::dag::NodeView;
use crate::targets::x86_64::dag::{convert_spec, fresh_node};
use crate::targets::x86_64::dag::function::node::NodeDataView;
use vstd::prelude::*;

verus! {

/// The node at `j` knows its index, its arguments come before it, and its
/// chain leads to a later node.
pub open spec fn node_in_order(nodes: Seq<NodeView>, j: int) -> bool {
    &&& nodes[j].id == Some(NodeId(j as usize))
    &&& match nodes[j].data {
        NodeDataView::Inst(_, args) => forall|a: int| 0 <= a < args.len() ==> (#[trigger] args[a]).0 < j,
        _ => true,
    }
    &&& match nodes[j].chain {
        Some(next) => j < next.0 < nodes.len(),
        None => true,
    }
}

/// What a rule adds to a graph: new nodes of `block` behind the nodes that
/// were there, none of them a root and none on a chain, the last of which
/// is `node` and stands for the instruction.
pub open spec fn extended(
    before: Seq<NodeView>,
    after: Seq<NodeView>,
    block: BasicBlockId,
    node: NodeId,
) -> bool {
    &&& before.len() < after.len()
    &&& node.0 == after.len() - 1
    &&& after[node.0 as int].data is Inst
    &&& forall|j: int| 0 <= j < before.len() ==> #[trigger] after[j] == before[j]
    &&& forall|j: int|
        before.len() <= j < after.len() ==> {
            &&& node_in_order(after, j)
            &&& (#[trigger] after[j]).parent == block
            &&& after[j].chain is None
            &&& !(after[j].data is Root)
        }
}

/// Every rule extends the graph.
pub proof fn lemma_rule_extends(
    values: Seq<Value>,
    nodes: Seq<NodeView>,
    block: BasicBlockId,
    inst: IrInst,
)
    requires
        convert_spec(values, nodes, block, inst) is Ok,
        convert_spec(values, nodes, block, inst)->Ok_0.0.len() <= usize::MAX,
    ensures
        extended(
            nodes,
            convert_spec(values, nodes, block, inst)->Ok_0.0,
            block,
            convert_spec(values, nodes, block, inst)->Ok_0.1,
        ),
{
}

/// The graph of a block after its root and its last `k` instructions.
pub open spec fn block_graph(
    insts: Seq<IrInst>,
    values: Seq<Value>,
    nodes: Seq<NodeView>,
    block: BasicBlockId,
    body: Seq<InstructionId>,
    k: nat,
) -> Seq<NodeView> {
    convert_block_spec(insts, values, nodes, block, body, k)->Ok_0.0
}

/// The node at the end of the chain of a block after its root and its last
/// `k` instructions: the root, or the node of the instruction that was
/// converted last.
pub open spec fn block_tail(
    insts: Seq<IrInst>,
    values: Seq<Value>,
    nodes: Seq<NodeView>,
    block: BasicBlockId,
    body: Seq<InstructionId>,
    k: nat,
) -> NodeId {
    convert_block_spec(insts, values, nodes, block, body, k)->Ok_0.1
}

/// What holds of the graph of a block after its root and its last `k`
/// instructions: the nodes that were there are as they were; the first new
/// node is the root, and no other new node is one; the new nodes belong to
/// the block and are in order; the chain ends at the tail.
pub open spec fn block_shaped(
    nodes: Seq<NodeView>,
    block: BasicBlockId,
    graph: Seq<NodeView>,
    tail: NodeId,
) -> bool {
    &&& nodes.len() < graph.len()
    &&& nodes.len() <= tail.0 < graph.len()
    &&& graph[tail.0 as int].chain is None
    &&& graph[nodes.len() as int].data is Root
    &&& forall|j: int| 0 <= j < nodes.len() ==> #[trigger] graph[j] == nodes[j]
    &&& forall|j: int|
        nodes.len() <= j < graph.len() ==> {
            &&& node_in_order(graph, j)
            &&& (#[trigger] graph[j]).parent == block
            &&& (graph[j].data is Root <==> j == nodes.len())
        }
}

/// The graph of a block is shaped as `block_shaped` says, after any number
/// of its instructions; and each tail but the last has the next tail as
/// the node that follows it on the chain.
pub proof fn lemma_block_shape(
    insts: Seq<IrInst>,
    values: Seq<Value>,
    nodes: Seq<NodeView>,
    block: BasicBlockId,
    body: Seq<InstructionId>,
    k: nat,
)
    requires
        convert_block_spec(insts, values, nodes, block, body, k) is Ok,
        block_graph(insts, values, nodes, block, body, k).len() <= usize::MAX,
    ensures
        block_shaped(
            nodes,
            block,
            block_graph(insts, values, nodes, block, body, k),
            block_tail(insts, values, nodes, block, body, k),
        ),
        k == 0 ==> block_tail(insts, values, nodes, block, body, k).0 == nodes.len(),
        k > 0 ==> block_graph(insts, values, nodes, block, body, k)[block_tail(
            insts,
            values,
            nodes,
            block,
            body,
            k,
        ).0 as int].data is Inst,
        forall|k2: nat|
            k2 < k ==> {
                &&& convert_block_spec(insts, values, nodes, block, body, k2) is Ok
                &&& (#[trigger] block_tail(insts, values, nodes, block, body, k2)).0 < block_graph(
                    insts,
                    values,
                    nodes,
                    block,
                    body,
                    k,
                ).len()
                &&& block_graph(insts, values, nodes, block, body, k)[block_tail(
                    insts,
                    values,
                    nodes,
                    block,
                    body,
                    k2,
                ).0 as int].chain == Some(
                    block_tail(insts, values, nodes, block, body, (k2 + 1) as nat),
                )
            },
    decreases k,
{
    let graph = block_graph(insts, values, nodes, block, body, k);
    let tail = block_tail(insts, values, nodes, block, body, k);
    if k == 0 {
        assert(graph == nodes.push(fresh_node(nodes.len(), NodeDataView::Root, block)));
    } else {
        let k1 = (k - 1) as nat;
        let before = block_graph(insts, values, nodes, block, body, k1);
        let prev = block_tail(insts, values, nodes, block, body, k1);
        let id = body[body.len() - k];
        let inst = at(insts, id.0 as int)->Some_0;
        let after = convert_spec(values, before, block, inst)->Ok_0.0;
        assert(graph == with_chain(after, prev, tail));
        assert(after.len() == graph.len());
        lemma_rule_extends(values, before, block, inst);
        lemma_block_shape(insts, values, nodes, block, body, k1);
        assert forall|j: int| nodes.len() <= j < graph.len() implies {
            &&& node_in_order(graph, j)
            &&& (#[trigger] graph[j]).parent == block
            &&& (graph[j].data is Root <==> j == nodes.len())
        } by {
            if j < before.len() {
                assert(after[j] == before[j]);
                assert(node_in_order(before, j));
            } else {
                assert(node_in_order(after, j));
            }
        }
        assert forall|k2: nat| k2 < k implies {
            &&& convert_block_spec(insts, values, nodes, block, body, k2) is Ok
            &&& (#[trigger] block_tail(insts, values, nodes, block, body, k2)).0 < graph.len()
            &&& graph[block_tail(insts, values, nodes, block, body, k2).0 as int].chain == Some(
                block_tail(insts, values, nodes, block, body, (k2 + 1) as nat),
            )
        } by {
            if k2 < k1 {
                let t2 = block_tail(insts, values, nodes, block, body, k2);
                assert(before[t2.0 as int].chain is Some);
                assert(t2 != prev);
                assert(after[t2.0 as int] == before[t2.0 as int]);
            }
        }
    }
}

/// The blocks of a program that was converted were converted one after the
/// other: the graph after any number of them is there, and is the
/// beginning of the graph after more of them.
pub proof fn lemma_blocks_shape(
    insts: Seq<IrInst>,
    values: Seq<Value>,
    program: Seq<Block>,
    i: nat,
    n: nat,
)
    requires
        i <= n,
        convert_blocks_spec(insts, values, program, n) is Ok,
        convert_blocks_spec(insts, values, program, n)->Ok_0.len() <= usize::MAX,
    ensures
        convert_blocks_spec(insts, values, program, i) is Ok,
        convert_blocks_spec(insts, values, program, i)->Ok_0.is_prefix_of(
            convert_blocks_spec(insts, values, program, n)->Ok_0,
        ),
        i < n ==> convert_blocks_spec(insts, values, program, i)->Ok_0.len() < convert_blocks_spec(
            insts,
            values,
            program,
            n,
        )->Ok_0.len(),
    decreases n,
{
    if i < n {
        let n1 = (n - 1) as nat;
        let before = convert_blocks_spec(insts, values, program, n1)->Ok_0;
        let block = program[n - 1];
        lemma_block_shape(insts, values, before, block.0, block.1, block.1.len());
        lemma_blocks_shape(insts, values, program, i, n1);
        let last = convert_blocks_spec(insts, values, program, n)->Ok_0;
        assert(before.is_prefix_of(last)) by {
            assert(before =~= last.subrange(0, before.len() as int));
        }
    }
}

/// The instructions of the `i`-th block of `function`.
pub open spec fn body_of(function: &IrFunction, i: int) -> Seq<InstructionId> {
    function.layout.program()[i].1
}

/// The node that stands at the end of the chain of the `i`-th block of
/// `function` after the root and the last `k` instructions of the block
/// have been converted: for `k == 0` the root of the block, else the node
/// of the `k`-th instruction from the end.
pub open spec fn chain_node(function: &IrFunction, i: int, k: nat) -> NodeId {
    block_tail(
        function.data.insts(),
        function.data.values@,
        convert_blocks_spec(
            function.data.insts(),
            function.data.values@,
            function.layout.program(),
            i as nat,
        )->Ok_0,
        function.layout.program()[i].0,
        body_of(function, i),
        k,
    )
}

/// In the graph of a function, the chain of each block starts at the root
/// of the block, which is the first node of the block, and leads through
/// the nodes of the block's instructions from the last instruction to the
/// first, where it ends. Each of these nodes belongs to the block.
pub proof fn lemma_chain_visits_every_instruction(function: &IrFunction, i: int, k: nat)
    requires
        convert_function_spec(function) is Ok,
        convert_function_spec(function)->Ok_0.len() <= usize::MAX,
        0 <= i < function.layout.program().len(),
        k <= body_of(function, i).len(),
    ensures
        ({
            let nodes = convert_function_spec(function)->Ok_0;
            let node = chain_node(function, i, k);
            &&& node.0 < nodes.len()
            &&& nodes[node.0 as int].parent == function.layout.program()[i].0
            &&& nodes[node.0 as int].id == Some(node)
            &&& k == 0 ==> nodes[node.0 as int].data is Root && node.0 == root_index(
                function.data.insts(),
                function.data.values@,
                function.layout.program(),
                i as nat,
            )
            &&& k > 0 ==> nodes[node.0 as int].data is Inst
            &&& nodes[node.0 as int].chain == if k < body_of(function, i).len() {
                Some(chain_node(function, i, (k + 1) as nat))
            } else {
                None
            }
        }),
{
    let insts = function.data.insts();
    let values = function.data.values@;
    let program = function.layout.program();
    let nodes = convert_function_spec(function)->Ok_0;
    let body = body_of(function, i);
    lemma_blocks_shape(insts, values, program, (i + 1) as nat, program.len());
    lemma_blocks_shape(insts, values, program, i as nat, (i + 1) as nat);
    let before = convert_blocks_spec(insts, values, program, i as nat)->Ok_0;
    let graph = convert_blocks_spec(insts, values, program, (i + 1) as nat)->Ok_0;
    assert(graph == block_graph(insts, values, before, program[i].0, body, body.len()));
    lemma_block_chain(insts, values, before, program[i].0, body, k, body.len());
    let node = chain_node(function, i, k);
    assert(graph[node.0 as int] == nodes[node.0 as int]);
}

/// The tail of a block after its last `k` instructions, as it stands in the
/// graph of the block after its last `m`: it belongs to the block, it is
/// the root for `k == 0` and the node of an instruction else, and the tail
/// after one instruction more follows it on the chain, if there is one.
pub proof fn lemma_block_chain(
    insts: Seq<IrInst>,
    values: Seq<Value>,
    nodes: Seq<NodeView>,
    block: BasicBlockId,
    body: Seq<InstructionId>,
    k: nat,
    m: nat,
)
    requires
        k <= m,
        convert_block_spec(insts, values, nodes, block, body, m) is Ok,
        block_graph(insts, values, nodes, block, body, m).len() <= usize::MAX,
    ensures
        convert_block_spec(insts, values, nodes, block, body, k) is Ok,
        ({
            let graph = block_graph(insts, values, nodes, block, body, m);
            let node = block_tail(insts, values, nodes, block, body, k);
            &&& nodes.len() <= node.0 < graph.len()
            &&& graph[node.0 as int].parent == block
            &&& graph[node.0 as int].id == Some(node)
            &&& k == 0 ==> graph[node.0 as int].data is Root && node.0 == nodes.len()
            &&& k > 0 ==> graph[node.0 as int].data is Inst
            &&& graph[node.0 as int].chain == if k < m {
                Some(block_tail(insts, values, nodes, block, body, (k + 1) as nat))
            } else {
                None
            }
        }),
{
    let graph = block_graph(insts, values, nodes, block, body, m);
    lemma_block_payload_stays(insts, values, nodes, block, body, k, m);
    let early = block_graph(insts, values, nodes, block, body, k);
    let node = block_tail(insts, values, nodes, block, body, k);
    lemma_block_shape(insts, values, nodes, block, body, k);
    lemma_block_shape(insts, values, nodes, block, body, m);
    assert(node.0 < early.len());
    assert(early[node.0 as int].data == graph[node.0 as int].data);
    assert(node_in_order(graph, node.0 as int));
    if k < m {
        assert(graph[node.0 as int].chain == Some(
            block_tail(insts, values, nodes, block, body, (k + 1) as nat),
        ));
    }
}

/// What a node of a block holds, to which block it belongs and how it is
/// named stay as they are when more instructions of the block are
/// converted: only chains change.
pub proof fn lemma_block_payload_stays(
    insts: Seq<IrInst>,
    values: Seq<Value>,
    nodes: Seq<NodeView>,
    block: BasicBlockId,
    body: Seq<InstructionId>,
    k: nat,
    n: nat,
)
    requires
        k <= n,
        convert_block_spec(insts, values, nodes, block, body, n) is Ok,
        block_graph(insts, values, nodes, block, body, n).len() <= usize::MAX,
    ensures
        convert_block_spec(insts, values, nodes, block, body, k) is Ok,
        block_graph(insts, values, nodes, block, body, k).len() <= block_graph(
            insts,
            values,
            nodes,
            block,
            body,
            n,
        ).len(),
        forall|j: int|
            0 <= j < block_graph(insts, values, nodes, block, body, k).len() ==> {
                let early = #[trigger] block_graph(insts, values, nodes, block, body, k)[j];
                let late = block_graph(insts, values, nodes, block, body, n)[j];
                early.data == late.data && early.parent == late.parent && early.id == late.id
            },
    decreases n,
{
    if k < n {
        let n1 = (n - 1) as nat;
        let before = block_graph(insts, values, nodes, block, body, n1);
        let id = body[body.len() - n];
        let inst = at(insts, id.0 as int)->Some_0;
        lemma_rule_extends(values, before, block, inst);
        lemma_block_payload_stays(insts, values, nodes, block, body, k, n1);
    }
}

/// In the graph of a function every node is named by its index, the
/// arguments of a node come before it, and the node that follows a node on
/// a chain comes after it: neither the arguments nor the chains can close a
/// cycle.
pub proof fn lemma_graph_is_acyclic(function: &IrFunction, j: int)
    requires
        convert_function_spec(function) is Ok,
        convert_function_spec(function)->Ok_0.len() <= usize::MAX,
        0 <= j < convert_function_spec(function)->Ok_0.len(),
    ensures
        node_in_order(convert_function_spec(function)->Ok_0, j),
{
    let insts = function.data.insts();
    let values = function.data.values@;
    let program = function.layout.program();
    lemma_nodes_in_order(insts, values, program, program.len(), j);
}

/// After any number of blocks, every node is in order.
proof fn lemma_nodes_in_order(
    insts: Seq<IrInst>,
    values: Seq<Value>,
    program: Seq<Block>,
    n: nat,
    j: int,
)
    requires
        convert_blocks_spec(insts, values, program, n) is Ok,
        convert_blocks_spec(insts, values, program, n)->Ok_0.len() <= usize::MAX,
        0 <= j < convert_blocks_spec(insts, values, program, n)->Ok_0.len(),
    ensures
        node_in_order(convert_blocks_spec(insts, values, program, n)->Ok_0, j),
    decreases n,
{
    if n > 0 {
        let n1 = (n - 1) as nat;
        let before = convert_blocks_spec(insts, values, program, n1)->Ok_0;
        let block = program[n - 1];
        lemma_block_shape(insts, values, before, block.0, block.1, block.1.len());
        if j < before.len() {
            lemma_nodes_in_order(insts, values, program, n1, j);
        }
    }
}

/// In the graph of a function the roots are the first nodes of the blocks:
/// each block has one, and there is no other.
pub proof fn lemma_one_root_for_each_block(function: &IrFunction, j: int)
    requires
        convert_function_spec(function) is Ok,
        convert_function_spec(function)->Ok_0.len() <= usize::MAX,
        0 <= j < convert_function_spec(function)->Ok_0.len(),
    ensures
        convert_function_spec(function)->Ok_0[j].data is Root <==> exists|i: nat|
            i < function.layout.program().len() && j == #[trigger] root_index(
                function.data.insts(),
                function.data.values@,
                function.layout.program(),
                i,
            ),
{
    let insts = function.data.insts();
    let values = function.data.values@;
    let program = function.layout.program();
    lemma_roots(insts, values, program, program.len(), j);
}

/// After any number of blocks, the roots are the first nodes of these
/// blocks.
proof fn lemma_roots(
    insts: Seq<IrInst>,
    values: Seq<Value>,
    program: Seq<Block>,
    n: nat,
    j: int,
)
    requires
        n <= program.len(),
        convert_blocks_spec(insts, values, program, n) is Ok,
        convert_blocks_spec(insts, values, program, n)->Ok_0.len() <= usize::MAX,
        0 <= j < convert_blocks_spec(insts, values, program, n)->Ok_0.len(),
    ensures
        convert_blocks_spec(insts, values, program, n)->Ok_0[j].data is Root <==> exists|i: nat|
            i < n && j == #[trigger] root_index(insts, values, program, i),
    decreases n,
{
    if n > 0 {
        let n1 = (n - 1) as nat;
        let before = convert_blocks_spec(insts, values, program, n1)->Ok_0;
        let block = program[n - 1];
        let last = convert_blocks_spec(insts, values, program, n)->Ok_0;
        lemma_block_shape(insts, values, before, block.0, block.1, block.1.len());
        assert(root_index(insts, values, program, n1) == before.len());
        if j < before.len() {
            lemma_roots(insts, values, program, n1, j);
            assert(last[j] == before[j]);
            if exists|i: nat| i < n && j == #[trigger] root_index(insts, values, program, i) {
                let i = choose|i: nat| i < n && j == #[trigger] root_index(insts, values, program, i);
                assert(i < n1);
            }
        } else {
            if exists|i: nat| i < n && j == #[trigger] root_index(insts, values, program, i) {
                let i = choose|i: nat| i < n && j == #[trigger] root_index(insts, values, program, i);
                if i < n1 {
                    lemma_blocks_shape(insts, values, program, n1, n);
                    lemma_blocks_shape(insts, values, program, i, n1);
                    lemma_blocks_shape(insts, values, program, (i + 1) as nat, n1);
                    lemma_blocks_shape(insts, values, program, i, (i + 1) as nat);
                }
            }
        }
    }
}

} // verus!
