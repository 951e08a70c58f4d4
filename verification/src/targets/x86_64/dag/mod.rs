//! Conversion of the intermediate representation to x86-64 dependency
//! graphs.

pub mod function;

use crate::error::{Error, Reason};
use crate::ir::function::basic_block::BasicBlockId;
use crate::ir::function::instruction::{Instruction as IrInst, Operand};
use crate::ir::function::layout::at;
use crate::ir::value::{ConstantData, ConstantInt, Value, ValueId};
use crate::lower::dag::function::node::NodeId;
use crate::lower::dag::{Context, NodeView};
use crate::targets::x86_64::dag::function::node::{Inst, NodeData, NodeDataView, Opcode};
use vstd::prelude::*;

verus! {

/// The rules that convert instructions to x86-64 nodes.
pub struct IrToDag {}

/// A node of `block` with payload `data` at index `index`, outside any
/// chain.
pub open spec fn fresh_node(index: nat, data: NodeDataView, block: BasicBlockId) -> NodeView {
    NodeView { id: Some(NodeId(index as usize)), data, parent: block, chain: None }
}

/// The node for a value: a literal node for a 32-bit literal. No other
/// value has a rule.
pub open spec fn convert_value_spec(nodes: Seq<NodeView>, block: BasicBlockId, value: Value) -> Result<
    (Seq<NodeView>, NodeId),
    Reason,
> {
    match value {
        Value::Constant(ConstantData::Int(ConstantInt::Int32(i))) => Ok(
            (
                nodes.push(fresh_node(nodes.len(), NodeDataView::Int32(i), block)),
                NodeId(nodes.len() as usize),
            ),
        ),
        _ => Err(Reason::Operand),
    }
}

/// The nodes for `ret` of the value `val`: the node of the value, and then
/// a `Ret` node that depends on it.
pub open spec fn convert_ret_spec(
    values: Seq<Value>,
    nodes: Seq<NodeView>,
    block: BasicBlockId,
    val: ValueId,
) -> Result<(Seq<NodeView>, NodeId), Reason> {
    match at(values, val.0 as int) {
        None => Err(Reason::UnknownValue),
        Some(value) => match convert_value_spec(nodes, block, value) {
            Err(reason) => Err(reason),
            Ok((with_value, value_node)) => Ok(
                (
                    with_value.push(
                        fresh_node(
                            with_value.len(),
                            NodeDataView::Inst(Opcode::Ret, seq![value_node]),
                            block,
                        ),
                    ),
                    NodeId(with_value.len() as usize),
                ),
            ),
        },
    }
}

/// The nodes for `inst`, and the id of the node that stands for it. Only a
/// `ret` with a value has a rule.
pub open spec fn convert_spec(
    values: Seq<Value>,
    nodes: Seq<NodeView>,
    block: BasicBlockId,
    inst: IrInst,
) -> Result<(Seq<NodeView>, NodeId), Error> {
    let outcome = match inst.operand {
        Operand::Ret { val: None, .. } => Err(Reason::RetVoid),
        Operand::Ret { val: Some(val), .. } => convert_ret_spec(values, nodes, block, val),
        _ => Err(Reason::NoRule),
    };
    match outcome {
        Ok(done) => Ok(done),
        Err(reason) => Err(Error::Todo { inst: inst.id, kind: inst.operand.kind_of(), reason }),
    }
}

impl IrToDag {
    /// Converts `inst`; see `convert`.
    pub fn convert(ctx: &mut Context, inst: &IrInst) -> (result: Result<NodeId, Error>)
        ensures
            converted(*old(ctx), *final(ctx), *inst, result),
    {
        convert(ctx, inst)
    }
}

/// What a conversion owes: on success the nodes that `convert_spec` gives
/// and the id of the node that stands for the instruction; on failure its
/// error, and the graph as it was.
pub open spec fn converted(
    before: Context,
    after: Context,
    inst: IrInst,
    result: Result<NodeId, Error>,
) -> bool {
    &&& after.ir_data == before.ir_data
    &&& after.block == before.block
    &&& after.dag_data.blocks() == before.dag_data.blocks()
    &&& result is Ok ==> (result->Ok_0).0 + 1 == after.nodes().len() && before.nodes().len()
        < after.nodes().len()
    &&& match convert_spec(before.ir_data.values@, before.nodes(), before.block, inst) {
        Ok((nodes, id)) => result == Ok::<NodeId, Error>(id) && after.nodes() == nodes,
        Err(error) => result == Err::<NodeId, Error>(error) && after.nodes() == before.nodes(),
    }
}

/// Converts `inst` to nodes of the current block.
pub fn convert(ctx: &mut Context, inst: &IrInst) -> (result: Result<NodeId, Error>)
    ensures
        converted(*old(ctx), *final(ctx), *inst, result),
{
    let outcome = match &inst.operand {
        Operand::Ret { val: None, .. } => Err(Reason::RetVoid),
        Operand::Ret { val: Some(val), .. } => convert_ret(ctx, *val),
        _ => Err(Reason::NoRule),
    };
    match outcome {
        Ok(id) => Ok(id),
        Err(reason) => Err(Error::Todo { inst: inst.id, kind: inst.operand.kind(), reason }),
    }
}

/// Converts a `ret` of the value `val`.
pub fn convert_ret(ctx: &mut Context, val: ValueId) -> (result: Result<NodeId, Reason>)
    ensures
        final(ctx).ir_data == old(ctx).ir_data,
        final(ctx).block == old(ctx).block,
        final(ctx).dag_data.blocks() == old(ctx).dag_data.blocks(),
        result is Ok ==> (result->Ok_0).0 + 1 == final(ctx).nodes().len() && old(ctx).nodes().len()
            < final(ctx).nodes().len(),
        match convert_ret_spec(old(ctx).ir_data.values@, old(ctx).nodes(), old(ctx).block, val) {
            Ok((nodes, id)) => result == Ok::<NodeId, Reason>(id) && final(ctx).nodes() == nodes,
            Err(reason) => result == Err::<NodeId, Reason>(reason) && final(ctx).nodes() == old(
                ctx,
            ).nodes(),
        },
{
    let value = match ctx.ir_data.value(val) {
        None => {
            return Err(Reason::UnknownValue);
        },
        Some(value) => value,
    };
    let value_node = match convert_value(ctx, &value) {
        Ok(id) => id,
        Err(reason) => {
            return Err(reason);
        },
    };
    let args = vec![value_node];
    assert(args@ =~= seq![value_node]);
    Ok(ctx.create_node(NodeData::Inst(Inst::new(Opcode::Ret, args))))
}

/// Converts a value to the node that produces it.
pub fn convert_value(ctx: &mut Context, val: &Value) -> (result: Result<NodeId, Reason>)
    ensures
        final(ctx).ir_data == old(ctx).ir_data,
        final(ctx).block == old(ctx).block,
        final(ctx).dag_data.blocks() == old(ctx).dag_data.blocks(),
        result is Ok ==> (result->Ok_0).0 + 1 == final(ctx).nodes().len() && old(ctx).nodes().len()
            < final(ctx).nodes().len(),
        match convert_value_spec(old(ctx).nodes(), old(ctx).block, *val) {
            Ok((nodes, id)) => result == Ok::<NodeId, Reason>(id) && final(ctx).nodes() == nodes,
            Err(reason) => result == Err::<NodeId, Reason>(reason) && final(ctx).nodes() == old(
                ctx,
            ).nodes(),
        },
{
    match val {
        Value::Constant(ConstantData::Int(ConstantInt::Int32(i))) => Ok(
            ctx.create_node(NodeData::Int32(*i)),
        ),
        _ => Err(Reason::Operand),
    }
}

} // verus!
