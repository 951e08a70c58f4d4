//! The dependency-graph builder.
//!
//! The blocks of the function are mirrored under new names, with their
//! edges. Then each block gets a root node, and its instructions are
//! converted from the last to the first; each converted instruction is
//! hung on the chain behind the one converted before it.

use crate::codegen::target::x86_64::X86_64;
use crate::error::{Error, Reason};
use crate::fx::map_insert;
use crate::ir::function::basic_block::{BasicBlock, BasicBlockId};
use crate::ir::function::instruction::{Instruction as IrInst, InstructionId, OperandKind};
use crate::ir::function::layout::{at, Layout as IrLayout};
use crate::ir::function::Function as IrFunction;
use crate::ir::module::Module as IrModule;
use crate::ir::value::Value;
use crate::lower::dag::edges::{copy_edges, covers, image};
use crate::lower::dag::function::data::Data as DagData;
use crate::lower::dag::function::layout::Layout as DagLayout;
use crate::lower::dag::function::node::{NodeData as NodeDataOf, NodeId};
use crate::lower::dag::function::Function;
use crate::lower::dag::module::Module;
use crate::lower::dag::{node_views, Context, NodeView};
use crate::targets::x86_64::dag::function::node::{NodeData, NodeDataView};
use crate::targets::x86_64::dag::{convert, convert_spec, fresh_node};
use rustc_hash::FxHashMap;
use vstd::prelude::*;

verus! {

/// A block of the program order with its instructions.
pub type Block = (BasicBlockId, Seq<InstructionId>);

/// `nodes` with `next` as the node that follows `node` on the chain.
pub open spec fn with_chain(nodes: Seq<NodeView>, node: NodeId, next: NodeId) -> Seq<NodeView> {
    if node.0 < nodes.len() {
        nodes.update(node.0 as int, NodeView { chain: Some(next), ..nodes[node.0 as int] })
    } else {
        nodes
    }
}

/// The error for an instruction that the function does not have.
pub open spec fn unknown_instruction(id: InstructionId) -> Error {
    Error::Todo { inst: Some(id), kind: OperandKind::Invalid, reason: Reason::UnknownInstruction }
}

/// The error for an edge to a block that is not in the program order, or
/// for a block of the program order that the function does not have.
pub open spec fn unknown_block() -> Error {
    Error::Todo { inst: None, kind: OperandKind::Invalid, reason: Reason::UnknownBlock }
}

/// The graph after the root of `block` and the last `k` instructions of
/// `body` have been converted, and the node at the end of the chain. The
/// root is the first node of the block; the instructions follow from the
/// last to the first, each chained behind the one before.
pub open spec fn convert_block_spec(
    insts: Seq<IrInst>,
    values: Seq<Value>,
    nodes: Seq<NodeView>,
    block: BasicBlockId,
    body: Seq<InstructionId>,
    k: nat,
) -> Result<(Seq<NodeView>, NodeId), Error>
    decreases k,
{
    if k == 0 {
        Ok((nodes.push(fresh_node(nodes.len(), NodeDataView::Root, block)), NodeId(
            nodes.len() as usize,
        )))
    } else {
        match convert_block_spec(insts, values, nodes, block, body, (k - 1) as nat) {
            Err(error) => Err(error),
            Ok((before, tail)) => {
                let id = body[body.len() - k];
                match at(insts, id.0 as int) {
                    None => Err(unknown_instruction(id)),
                    Some(inst) => match convert_spec(values, before, block, inst) {
                        Err(error) => Err(error),
                        Ok((after, node)) => Ok((with_chain(after, tail, node), node)),
                    },
                }
            },
        }
    }
}

/// The graph after the first `n` blocks of `program` have been converted.
pub open spec fn convert_blocks_spec(
    insts: Seq<IrInst>,
    values: Seq<Value>,
    program: Seq<Block>,
    n: nat,
) -> Result<Seq<NodeView>, Error>
    decreases n,
{
    if n == 0 {
        Ok(Seq::empty())
    } else {
        match convert_blocks_spec(insts, values, program, (n - 1) as nat) {
            Err(error) => Err(error),
            Ok(before) => {
                let block = program[n - 1];
                match convert_block_spec(insts, values, before, block.0, block.1, block.1.len()) {
                    Err(error) => Err(error),
                    Ok((after, _)) => Ok(after),
                }
            },
        }
    }
}

/// The index of the root node of the `i`-th block: the number of nodes of
/// the blocks before it.
pub open spec fn root_index(
    insts: Seq<IrInst>,
    values: Seq<Value>,
    program: Seq<Block>,
    i: nat,
) -> nat {
    match convert_blocks_spec(insts, values, program, i) {
        Ok(nodes) => nodes.len(),
        Err(_) => 0,
    }
}

/// The renaming of the blocks: each block of the program order is named by
/// its place.
pub open spec fn renaming(blocks: Seq<BasicBlockId>) -> Map<usize, BasicBlockId> {
    Map::new(
        |k: usize| blocks.contains(BasicBlockId(k)),
        |k: usize| BasicBlockId(blocks.index_of(BasicBlockId(k)) as usize),
    )
}

/// Every block of the program order is one that the function has, and its
/// edges lead to blocks of the program order.
pub open spec fn edges_known(ir_blocks: Seq<BasicBlock>, blocks: Seq<BasicBlockId>) -> bool {
    forall|i: int|
        0 <= i < blocks.len() ==> {
            &&& (#[trigger] blocks[i]).0 < ir_blocks.len()
            &&& covers(renaming(blocks), ir_blocks[blocks[i].0 as int].preds@)
            &&& covers(renaming(blocks), ir_blocks[blocks[i].0 as int].succs@)
        }
}

/// What converting a function gives: the nodes of its graph, or the error.
pub open spec fn convert_function_spec(function: &IrFunction) -> Result<Seq<NodeView>, Error> {
    if !edges_known(function.data.blocks(), function.layout.blocks()) {
        Err(unknown_block())
    } else {
        convert_blocks_spec(
            function.data.insts(),
            function.data.values@,
            function.layout.program(),
            function.layout.program().len(),
        )
    }
}

/// Once the conversion of a block fails, it fails for every larger number
/// of instructions, with the same error.
pub proof fn lemma_block_failure_stays(
    insts: Seq<IrInst>,
    values: Seq<Value>,
    nodes: Seq<NodeView>,
    block: BasicBlockId,
    body: Seq<InstructionId>,
    k: nat,
    n: nat,
)
    requires
        k <= n,
        convert_block_spec(insts, values, nodes, block, body, k) is Err,
    ensures
        convert_block_spec(insts, values, nodes, block, body, n) == convert_block_spec(
            insts,
            values,
            nodes,
            block,
            body,
            k,
        ),
    decreases n,
{
    if k < n {
        lemma_block_failure_stays(insts, values, nodes, block, body, k, (n - 1) as nat);
    }
}

/// Once the conversion of the blocks fails, it fails for every larger
/// number of blocks, with the same error.
pub proof fn lemma_blocks_failure_stays(
    insts: Seq<IrInst>,
    values: Seq<Value>,
    program: Seq<Block>,
    k: nat,
    n: nat,
)
    requires
        k <= n,
        convert_blocks_spec(insts, values, program, k) is Err,
    ensures
        convert_blocks_spec(insts, values, program, n) == convert_blocks_spec(
            insts,
            values,
            program,
            k,
        ),
    decreases n,
{
    if k < n {
        lemma_blocks_failure_stays(insts, values, program, k, (n - 1) as nat);
    }
}

/// Converts the instructions of `block` from the last to the first, behind
/// a new root, and returns the root.
fn convert_block(ctx: &mut Context, layout: &IrLayout, block: BasicBlockId) -> (result: Result<
    NodeId,
    Error,
>)
    requires
        layout.wf(),
        layout.blocks().contains(block),
    ensures
        final(ctx).ir_data == old(ctx).ir_data,
        final(ctx).dag_data.blocks() == old(ctx).dag_data.blocks(),
        match convert_block_spec(
            old(ctx).ir_data.insts(),
            old(ctx).ir_data.values@,
            old(ctx).nodes(),
            block,
            layout.insts_of(block),
            layout.insts_of(block).len(),
        ) {
            Ok((nodes, _)) => result == Ok::<NodeId, Error>(NodeId(old(ctx).nodes().len() as usize))
                && final(ctx).nodes() == nodes,
            Err(error) => result == Err::<NodeId, Error>(error),
        },
{
    let ghost insts = ctx.ir_data.insts();
    let ghost values = ctx.ir_data.values@;
    let ghost start = ctx.nodes();
    let ghost body = layout.insts_of(block);
    ctx.block = block;
    let root = ctx.create_node(NodeData::root());
    let mut chain = root;
    let mut iter = layout.inst_iter(block);
    loop
        invariant
            ctx.ir_data == old(ctx).ir_data,
            ctx.dag_data.blocks() == old(ctx).dag_data.blocks(),
            ctx.block == block,
            insts == ctx.ir_data.insts(),
            values == ctx.ir_data.values@,
            start == old(ctx).nodes(),
            root == NodeId(start.len() as usize),
            iter.wf(),
            iter.layout() == layout,
            iter.block() == block,
            body == layout.insts_of(block),
            iter.front() == 0,
            0 <= iter.back() <= body.len(),
            chain.0 < ctx.nodes().len(),
            convert_block_spec(insts, values, start, block, body, (body.len() - iter.back()) as nat)
                == Ok::<(Seq<NodeView>, NodeId), Error>((ctx.nodes(), chain)),
        ensures
            ctx.ir_data == old(ctx).ir_data,
            ctx.dag_data.blocks() == old(ctx).dag_data.blocks(),
            convert_block_spec(insts, values, start, block, body, body.len())
                == Ok::<(Seq<NodeView>, NodeId), Error>((ctx.nodes(), chain)),
        decreases iter.back(),
    {
        let ghost back = iter.back();
        let ghost k = (body.len() - back + 1) as nat;
        match iter.next_back() {
            Some(id) => {
                assert(id == body[body.len() - k]);
                let inst = match ctx.ir_data.inst(id) {
                    Some(inst) => inst,
                    None => {
                        proof {
                            lemma_block_failure_stays(
                                insts,
                                values,
                                start,
                                block,
                                body,
                                k,
                                body.len(),
                            );
                        }
                        return Err(
                            Error::Todo {
                                inst: Some(id),
                                kind: OperandKind::Invalid,
                                reason: Reason::UnknownInstruction,
                            },
                        );
                    },
                };
                let ghost before = ctx.nodes();
                let node = match convert(ctx, inst) {
                    Ok(node) => node,
                    Err(error) => {
                        proof {
                            lemma_block_failure_stays(
                                insts,
                                values,
                                start,
                                block,
                                body,
                                k,
                                body.len(),
                            );
                        }
                        return Err(error);
                    },
                };
                let ghost after = ctx.nodes();
                assert(before.len() < after.len());
                ctx.dag_data.node_ref_mut(chain).set_chain(node);
                assert(ctx.nodes() =~= with_chain(after, chain, node));
                chain = node;
            },
            None => {
                break ;
            },
        }
    }
    Ok(root)
}

/// The blocks of a graph with `n` blocks: named `0` to `n - 1`, in order.
pub open spec fn mirrored(n: nat) -> Seq<BasicBlockId> {
    Seq::new(n, |i: int| BasicBlockId(i as usize))
}

/// The edges of the first `n` blocks of the graph are those of the blocks
/// they mirror, renamed.
pub open spec fn edges_copied(
    ir_blocks: Seq<BasicBlock>,
    blocks: Seq<BasicBlockId>,
    dag_blocks: Seq<BasicBlock>,
    n: int,
) -> bool {
    forall|i: int|
        0 <= i < n ==> {
            let from = ir_blocks[blocks[i].0 as int];
            let into = #[trigger] dag_blocks[i];
            &&& forall|t: usize|
                into.preds@.contains(t) <==> image(renaming(blocks), from.preds@).contains(t)
            &&& forall|t: usize|
                into.succs@.contains(t) <==> image(renaming(blocks), from.succs@).contains(t)
        }
}

/// What `convert_function` owes for a function that can be converted.
pub open spec fn is_graph_of(graph: &Function, function: &IrFunction, nodes: Seq<NodeView>) -> bool {
    let blocks = function.layout.blocks();
    &&& graph.base == function
    &&& node_views(graph.data.node_seq()) == nodes
    &&& graph.layout.wf()
    &&& graph.layout.blocks() == mirrored(blocks.len())
    &&& graph.block_map@ == renaming(blocks)
    &&& graph.data.blocks().len() == blocks.len()
    &&& edges_copied(function.data.blocks(), blocks, graph.data.blocks(), blocks.len() as int)
    &&& forall|i: int|
        0 <= i < blocks.len() ==> #[trigger] graph.layout.root_of(BasicBlockId(i as usize))
            == Some(
            NodeId(
                root_index(
                    function.data.insts(),
                    function.data.values@,
                    function.layout.program(),
                    i as nat,
                ) as usize,
            ),
        )
}

/// Builds the dependency graph of `function`.
///
/// The graph has one block for each block of the program order, named by
/// its place, with the edges of the block it mirrors. Each block has a root
/// node, and the chain from the root leads through the nodes of the
/// block's instructions from the last instruction to the first. A function
/// with an instruction that has no rule, or with an edge that leaves the
/// program order, gives the error and no graph.
pub fn convert_function<'a>(isa: &'a X86_64, function: &'a IrFunction) -> (result: Result<
    Function<'a>,
    Error,
>)
    requires
        function.layout.wf(),
    ensures
        match convert_function_spec(function) {
            Ok(nodes) => result is Ok && is_graph_of(&result->Ok_0, function, nodes),
            Err(error) => result == Err::<Function<'a>, Error>(error),
        },
{
    let ir_layout = &function.layout;
    let ghost blocks = ir_layout.blocks();
    let ghost program = ir_layout.program();
    let ghost insts = function.data.insts();
    let ghost values = function.data.values@;
    let ghost ir_blocks = function.data.blocks();
    proof {
        ir_layout.lemma_wf_facts();
    }
    let mut dag_data = DagData::new();
    let mut layout = DagLayout::new();
    let mut block_map: FxHashMap<usize, BasicBlockId> = FxHashMap::default();

    let mut iter = ir_layout.block_iter();
    loop
        invariant
            iter.wf(),
            iter.layout() == ir_layout,
            blocks == ir_layout.blocks(),
            blocks.no_duplicates(),
            0 <= iter.position() <= blocks.len(),
            dag_data.node_seq().len() == 0,
            dag_data.blocks().len() == iter.position(),
            forall|i: int|
                0 <= i < iter.position() ==> (#[trigger] dag_data.blocks()[i]).preds@
                    == Set::<usize>::empty() && dag_data.blocks()[i].succs@
                    == Set::<usize>::empty(),
            layout.wf(),
            layout.blocks() == mirrored(iter.position() as nat),
            forall|k: usize| #[trigger]
                block_map@.contains_key(k) ==> exists|i: int|
                    0 <= i < iter.position() && blocks[i] == BasicBlockId(k),
            forall|i: int|
                0 <= i < iter.position() ==> block_map@.contains_key((#[trigger] blocks[i]).0)
                    && block_map@[blocks[i].0] == BasicBlockId(i as usize),
        ensures
            dag_data.node_seq().len() == 0,
            dag_data.blocks().len() == blocks.len(),
            forall|i: int|
                0 <= i < blocks.len() ==> (#[trigger] dag_data.blocks()[i]).preds@
                    == Set::<usize>::empty() && dag_data.blocks()[i].succs@
                    == Set::<usize>::empty(),
            layout.wf(),
            layout.blocks() == mirrored(blocks.len()),
            forall|k: usize| #[trigger]
                block_map@.contains_key(k) ==> exists|i: int|
                    0 <= i < blocks.len() && blocks[i] == BasicBlockId(k),
            forall|i: int|
                0 <= i < blocks.len() ==> block_map@.contains_key((#[trigger] blocks[i]).0)
                    && block_map@[blocks[i].0] == BasicBlockId(i as usize),
        decreases blocks.len() - iter.position(),
    {
        let ghost pos = iter.position();
        let ghost map_before = block_map@;
        let ghost dag_before = dag_data.blocks();
        match iter.next() {
            Some(block) => {
                let new_block = dag_data.create_block();
                proof {
                    assert(dag_data.blocks().drop_last() == dag_before);
                    assert forall|i: int| 0 <= i < pos + 1 implies (#[trigger] dag_data.blocks()[i]).preds@
                        == Set::<usize>::empty() && dag_data.blocks()[i].succs@
                        == Set::<usize>::empty() by {
                        if i < pos {
                            assert(dag_data.blocks()[i] == dag_before[i]);
                        }
                    }
                    if layout.blocks().contains(new_block) {
                        let i = choose|i: int|
                            0 <= i < layout.blocks().len() && layout.blocks()[i] == new_block;
                    }
                    if map_before.contains_key(block.0) {
                        let i = choose|i: int| 0 <= i < pos && blocks[i] == BasicBlockId(block.0);
                        assert(blocks[pos] == blocks[i]);
                    }
                }
                layout.append_block(new_block);
                assert(layout.blocks() =~= mirrored((pos + 1) as nat));
                map_insert(&mut block_map, block.0, new_block);
                assert forall|k: usize| #[trigger] block_map@.contains_key(k) implies exists|i: int|
                    0 <= i < pos + 1 && blocks[i] == BasicBlockId(k) by {
                    if k == block.0 {
                        assert(blocks[pos] == BasicBlockId(k));
                    } else {
                        let i = choose|i: int| 0 <= i < pos && blocks[i] == BasicBlockId(k);
                        assert(0 <= i < pos + 1 && blocks[i] == BasicBlockId(k));
                    }
                }
            },
            None => {
                break ;
            },
        }
    }
    proof {
        let target = renaming(blocks);
        assert forall|k: usize| block_map@.contains_key(k) == target.contains_key(k) by {
            if target.contains_key(k) {
                let i = blocks.index_of(BasicBlockId(k));
                assert(block_map@.contains_key(blocks[i].0));
            }
        }
        assert forall|k: usize| block_map@.contains_key(k) implies block_map@[k] == target[k] by {
            let i = blocks.index_of(BasicBlockId(k));
            assert(block_map@.contains_key(blocks[i].0));
        }
        assert(block_map@ =~= target);
    }

    let mut iter = ir_layout.block_iter();
    let mut index: usize = 0;
    loop
        invariant
            iter.wf(),
            iter.layout() == ir_layout,
            blocks == ir_layout.blocks(),
            blocks.len() <= usize::MAX + 1,
            ir_layout == &function.layout,
            ir_blocks == function.data.blocks(),
            block_map@ == renaming(blocks),
            0 <= iter.position() <= blocks.len(),
            iter.position() < blocks.len() ==> index == iter.position(),
            dag_data.node_seq().len() == 0,
            dag_data.blocks().len() == blocks.len(),
            forall|i: int|
                iter.position() <= i < blocks.len() ==> (#[trigger] dag_data.blocks()[i]).preds@
                    == Set::<usize>::empty() && dag_data.blocks()[i].succs@
                    == Set::<usize>::empty(),
            edges_copied(ir_blocks, blocks, dag_data.blocks(), iter.position()),
            forall|i: int|
                0 <= i < iter.position() ==> {
                    &&& (#[trigger] blocks[i]).0 < ir_blocks.len()
                    &&& covers(renaming(blocks), ir_blocks[blocks[i].0 as int].preds@)
                    &&& covers(renaming(blocks), ir_blocks[blocks[i].0 as int].succs@)
                },
        ensures
            dag_data.node_seq().len() == 0,
            dag_data.blocks().len() == blocks.len(),
            edges_copied(ir_blocks, blocks, dag_data.blocks(), blocks.len() as int),
            edges_known(ir_blocks, blocks),
        decreases blocks.len() - iter.position(),
    {
        let ghost pos = iter.position();
        let ghost dag_before = dag_data.blocks();
        match iter.next() {
            Some(block) => {
                assert(blocks[pos] == block);
                let from = match function.data.block(block) {
                    Some(from) => from,
                    None => {
                        assert(!(blocks[pos].0 < ir_blocks.len()));
                        return Err(
                            Error::Todo {
                                inst: None,
                                kind: OperandKind::Invalid,
                                reason: Reason::UnknownBlock,
                            },
                        );
                    },
                };
                let into = dag_data.block_ref_mut(BasicBlockId(index));
                let preds_done = copy_edges(&from.preds, &mut into.preds, &block_map);
                let succs_done = copy_edges(&from.succs, &mut into.succs, &block_map);
                if !preds_done || !succs_done {
                    assert(!covers(renaming(blocks), ir_blocks[blocks[pos].0 as int].preds@)
                        || !covers(renaming(blocks), ir_blocks[blocks[pos].0 as int].succs@));
                    return Err(
                        Error::Todo {
                            inst: None,
                            kind: OperandKind::Invalid,
                            reason: Reason::UnknownBlock,
                        },
                    );
                }
                proof {
                    assert forall|i: int| 0 <= i < pos + 1 implies {
                        let from = ir_blocks[blocks[i].0 as int];
                        let into = #[trigger] dag_data.blocks()[i];
                        &&& forall|t: usize|
                            into.preds@.contains(t) <==> image(
                                renaming(blocks),
                                from.preds@,
                            ).contains(t)
                        &&& forall|t: usize|
                            into.succs@.contains(t) <==> image(
                                renaming(blocks),
                                from.succs@,
                            ).contains(t)
                    } by {
                        if i < pos {
                            assert(dag_data.blocks()[i] == dag_before[i]);
                        } else {
                            assert(dag_before[pos].preds@ == Set::<usize>::empty());
                        }
                    }
                    assert forall|i: int| pos + 1 <= i < blocks.len() implies (
                    #[trigger] dag_data.blocks()[i]).preds@ == Set::<usize>::empty()
                        && dag_data.blocks()[i].succs@ == Set::<usize>::empty() by {
                        assert(dag_data.blocks()[i] == dag_before[i]);
                    }
                }
                if index < usize::MAX {
                    index = index + 1;
                }
            },
            None => {
                break ;
            },
        }
    }

    let mut ctx = Context { ir_data: &function.data, dag_data, block: BasicBlockId(0) };
    let mut iter = ir_layout.block_iter();
    let mut index: usize = 0;
    assert(ctx.nodes() =~= Seq::<NodeView>::empty());
    loop
        invariant
            iter.wf(),
            iter.layout() == ir_layout,
            ir_layout == &function.layout,
            blocks == ir_layout.blocks(),
            program == ir_layout.program(),
            blocks.len() <= usize::MAX + 1,
            insts == function.data.insts(),
            values == function.data.values@,
            ir_blocks == function.data.blocks(),
            ctx.ir_data == &function.data,
            ir_layout.wf(),
            edges_known(ir_blocks, blocks),
            0 <= iter.position() <= blocks.len(),
            iter.position() < blocks.len() ==> index == iter.position(),
            ctx.dag_data.blocks().len() == blocks.len(),
            edges_copied(ir_blocks, blocks, ctx.dag_data.blocks(), blocks.len() as int),
            layout.wf(),
            layout.blocks() == mirrored(blocks.len()),
            convert_blocks_spec(insts, values, program, iter.position() as nat)
                == Ok::<Seq<NodeView>, Error>(ctx.nodes()),
            forall|i: int|
                0 <= i < iter.position() ==> #[trigger] layout.root_of(BasicBlockId(i as usize))
                    == Some(NodeId(root_index(insts, values, program, i as nat) as usize)),
        ensures
            ctx.ir_data == &function.data,
            ctx.dag_data.blocks().len() == blocks.len(),
            edges_copied(ir_blocks, blocks, ctx.dag_data.blocks(), blocks.len() as int),
            layout.wf(),
            layout.blocks() == mirrored(blocks.len()),
            convert_blocks_spec(insts, values, program, program.len())
                == Ok::<Seq<NodeView>, Error>(ctx.nodes()),
            forall|i: int|
                0 <= i < blocks.len() ==> #[trigger] layout.root_of(BasicBlockId(i as usize))
                    == Some(NodeId(root_index(insts, values, program, i as nat) as usize)),
        decreases blocks.len() - iter.position(),
    {
        let ghost pos = iter.position();
        match iter.next() {
            Some(block) => {
                assert(blocks[pos] == block);
                assert(program[pos] == (block, ir_layout.insts_of(block)));
                let root = match convert_block(&mut ctx, ir_layout, block) {
                    Ok(root) => root,
                    Err(error) => {
                        proof {
                            lemma_blocks_failure_stays(
                                insts,
                                values,
                                program,
                                (pos + 1) as nat,
                                program.len(),
                            );
                        }
                        return Err(error);
                    },
                };
                assert(layout.blocks()[pos] == BasicBlockId(index));
                layout.set_node_root(root, BasicBlockId(index));
                if index < usize::MAX {
                    index = index + 1;
                }
            },
            None => {
                break ;
            },
        }
    }
    let mut graph = Function::new(isa, function);
    graph.data = ctx.dag_data;
    graph.layout = layout;
    graph.block_map = block_map;
    Ok(graph)
}

/// Builds the dependency graph of each function of `module`, in order. A
/// function that cannot be converted has its error in the place of its
/// graph; the other functions are not affected.
pub fn convert_module<'a>(isa: &'a X86_64, module: &'a IrModule) -> (result: Module<'a>)
    requires
        forall|i: int|
            0 <= i < module.functions@.len() ==> (#[trigger] module.functions@[i]).layout.wf(),
    ensures
        result.isa == isa,
        result.base == module,
        result.functions@.len() == module.functions@.len(),
        forall|i: int|
            0 <= i < module.functions@.len() ==> match convert_function_spec(&module.functions@[i]) {
                Ok(nodes) => (#[trigger] result.functions@[i]) is Ok && is_graph_of(
                    &result.functions@[i]->Ok_0,
                    &module.functions@[i],
                    nodes,
                ),
                Err(error) => result.functions@[i] == Err::<Function<'a>, Error>(error),
            },
{
    let mut result = Module::new(isa, module);
    let mut i: usize = 0;
    while i < module.functions.len()
        invariant
            0 <= i <= module.functions@.len(),
            result.isa == isa,
            result.base == module,
            result.functions@.len() == i,
            forall|j: int|
                0 <= j < module.functions@.len() ==> (#[trigger] module.functions@[j]).layout.wf(),
            forall|j: int|
                0 <= j < i ==> match convert_function_spec(&module.functions@[j]) {
                    Ok(nodes) => (#[trigger] result.functions@[j]) is Ok && is_graph_of(
                        &result.functions@[j]->Ok_0,
                        &module.functions@[j],
                        nodes,
                    ),
                    Err(error) => result.functions@[j] == Err::<Function<'a>, Error>(error),
                },
        decreases module.functions@.len() - i,
    {
        let graph = convert_function(isa, &module.functions[i]);
        result.functions.push(graph);
        i = i + 1;
    }
    result
}

} // verus!
