use vicis::codegen::target::x86_64::X86_64;
use vicis::error::{Error, Reason};
use vicis::ir::function::basic_block::BasicBlockId;
use vicis::ir::function::instruction::{
    Instruction, InstructionId, Opcode as IrOpcode, Operand as IrOperand, OperandKind,
};
use vicis::ir::function::Function;
use vicis::ir::module::Module;
use vicis::ir::types::Types;
use vicis::ir::value::{ConstantData, ConstantInt, Value, ValueId};
use vicis::lower::dag::function::data::Data;
use vicis::lower::dag::function::layout::Layout;
use vicis::lower::dag::function::node::{Node, NodeData as NodeDataOf, NodeId};
use vicis::lower::dag::dot::dot;
use vicis::lower::dag::{convert_function, convert_module, Context};
use vicis::targets::x86_64::dag::function::node::{Inst, NodeData, Opcode};
use vicis::targets::x86_64::dag::{convert, IrToDag};

fn new_block(function: &mut Function) -> BasicBlockId {
    let id = function.data.create_block();
    function.layout.append_block(id);
    id
}

fn constant(function: &mut Function, i: i32) -> ValueId {
    function.data.create_value(Value::Constant(ConstantData::Int(ConstantInt::Int32(i))))
}

fn ret(function: &mut Function, parent: BasicBlockId, val: Option<ValueId>) -> InstructionId {
    let ty = Types::new().i32();
    let id = function
        .data
        .create_inst(Instruction::new(IrOpcode::Ret, IrOperand::Ret { ty, val }, parent));
    function.layout.append_inst(id, parent);
    id
}

fn returning(values: &[i32]) -> Function {
    let mut function = Function::new("f".to_string(), Types::new().i32());
    for value in values {
        let block = new_block(&mut function);
        let value = constant(&mut function, *value);
        ret(&mut function, block, Some(value));
    }
    function
}

fn is_root(data: &NodeData) -> bool {
    matches!(data, NodeData::Root)
}

fn is_int(data: &NodeData, i: i32) -> bool {
    matches!(data, NodeData::Int32(j) if *j == i)
}

fn is_ret_of(data: &NodeData, arg: NodeId) -> bool {
    matches!(data, NodeData::Inst(inst) if inst.opcode == Opcode::Ret && inst.args == vec![arg])
}

#[test]
fn a_constant_return_is_a_root_a_literal_and_a_return() {
    let function = returning(&[42]);
    let graph = convert_function(&X86_64, &function).ok().unwrap();
    let root = graph.data.node_ref(NodeId(0));
    let literal = graph.data.node_ref(NodeId(1));
    let ret = graph.data.node_ref(NodeId(2));
    assert!(graph.data.node(NodeId(3)).is_none());
    assert!(is_root(&root.data));
    assert!(is_int(&literal.data, 42));
    assert!(is_ret_of(&ret.data, NodeId(1)));
    assert_eq!(root.chain, Some(NodeId(2)));
    assert_eq!(literal.chain, None);
    assert_eq!(ret.chain, None);
    assert_eq!(root.parent, BasicBlockId(0));
    assert_eq!(ret.parent, BasicBlockId(0));
    assert_eq!(root.id, Some(NodeId(0)));
    assert_eq!(ret.id, Some(NodeId(2)));
    assert_eq!(graph.layout.first_block(), Some(BasicBlockId(0)));
    assert_eq!(graph.layout.last_block(), Some(BasicBlockId(0)));
    assert_eq!(graph.layout.node_root_of(BasicBlockId(0)), Some(NodeId(0)));
    assert_eq!(graph.block_map.get(&0), Some(&BasicBlockId(0)));
}

#[test]
fn every_block_has_a_root_of_its_own() {
    let function = returning(&[1, 2, 3]);
    let graph = convert_function(&X86_64, &function).ok().unwrap();
    let mut blocks = Vec::new();
    let mut iter = graph.layout.block_iter();
    while let Some(block) = iter.next() {
        blocks.push(block);
    }
    assert_eq!(blocks, vec![BasicBlockId(0), BasicBlockId(1), BasicBlockId(2)]);
    for (i, block) in blocks.into_iter().enumerate() {
        let root = graph.layout.node_root_of(block).unwrap();
        assert_eq!(root, NodeId(3 * i));
        let node = graph.data.node_ref(root);
        assert!(is_root(&node.data));
        assert_eq!(node.parent, block);
        let ret = node.chain.unwrap();
        assert_eq!(ret, NodeId(3 * i + 2));
        assert!(is_ret_of(&graph.data.node_ref(ret).data, NodeId(3 * i + 1)));
        assert!(is_int(&graph.data.node_ref(NodeId(3 * i + 1)).data, i as i32 + 1));
    }
    assert_eq!(graph.layout.next_block_of(BasicBlockId(0)), Some(BasicBlockId(1)));
    assert_eq!(graph.layout.next_block_of(BasicBlockId(2)), None);
}

#[test]
fn the_chain_leads_from_the_last_instruction_to_the_first() {
    let mut function = Function::new("f".to_string(), Types::new().i32());
    let block = new_block(&mut function);
    let one = constant(&mut function, 1);
    let two = constant(&mut function, 2);
    ret(&mut function, block, Some(one));
    ret(&mut function, block, Some(two));
    let graph = convert_function(&X86_64, &function).ok().unwrap();
    let root = graph.data.node_ref(NodeId(0));
    let last = graph.data.node_ref(root.chain.unwrap());
    assert!(is_ret_of(&last.data, NodeId(1)));
    assert!(is_int(&graph.data.node_ref(NodeId(1)).data, 2));
    let first = graph.data.node_ref(last.chain.unwrap());
    assert!(is_ret_of(&first.data, NodeId(3)));
    assert!(is_int(&graph.data.node_ref(NodeId(3)).data, 1));
    assert_eq!(first.chain, None);
}

#[test]
fn edges_are_copied_to_the_mirrored_blocks() {
    let mut function = Function::new("f".to_string(), Types::new().i32());
    let spare = function.data.create_block();
    let head = new_block(&mut function);
    let tail = new_block(&mut function);
    assert_eq!(spare, BasicBlockId(0));
    function.data.block_ref_mut(head).add_succ(tail);
    function.data.block_ref_mut(tail).add_pred(head);
    function.data.block_ref_mut(tail).add_succ(tail);
    function.data.block_ref_mut(tail).add_pred(tail);
    let graph = convert_function(&X86_64, &function).ok().unwrap();
    assert_eq!(graph.block_map.get(&head.0), Some(&BasicBlockId(0)));
    assert_eq!(graph.block_map.get(&tail.0), Some(&BasicBlockId(1)));
    assert_eq!(graph.block_map.get(&spare.0), None);
    let new_head = graph.data.block_ref(BasicBlockId(0));
    let new_tail = graph.data.block_ref(BasicBlockId(1));
    assert!(new_head.preds.is_empty());
    assert_eq!(new_head.succs.iter().copied().collect::<Vec<_>>(), vec![1]);
    let mut preds = new_tail.preds.iter().copied().collect::<Vec<_>>();
    preds.sort();
    assert_eq!(preds, vec![0, 1]);
    assert_eq!(new_tail.succs.iter().copied().collect::<Vec<_>>(), vec![1]);
}

#[test]
fn an_edge_to_a_block_without_a_place_is_an_error() {
    let mut function = Function::new("f".to_string(), Types::new().i32());
    let head = new_block(&mut function);
    let spare = function.data.create_block();
    function.data.block_ref_mut(head).add_succ(spare);
    let error = convert_function(&X86_64, &function).err().unwrap();
    assert_eq!(error.reason(), Reason::UnknownBlock);
}

#[test]
fn instructions_without_a_rule_give_no_graph() {
    let mut function = Function::new("f".to_string(), Types::new().void());
    let block = new_block(&mut function);
    let id = ret(&mut function, block, None);
    let error = convert_function(&X86_64, &function).err().unwrap();
    assert_eq!(
        error,
        Error::Todo { inst: Some(id), kind: OperandKind::Ret, reason: Reason::RetVoid }
    );
    assert_eq!(error.to_string(), "Todo(ret void)");

    let mut function = Function::new("f".to_string(), Types::new().i32());
    let block = new_block(&mut function);
    let target = block;
    let id = function.data.create_inst(Instruction::new(
        IrOpcode::Br,
        IrOperand::Br { block: target },
        block,
    ));
    function.layout.append_inst(id, block);
    let error = convert_function(&X86_64, &function).err().unwrap();
    assert_eq!(
        error,
        Error::Todo { inst: Some(id), kind: OperandKind::Br, reason: Reason::NoRule }
    );
    assert_eq!(error.to_string(), "Todo(unimplemented)");

    let mut function = Function::new("f".to_string(), Types::new().i32());
    let block = new_block(&mut function);
    let value = function
        .data
        .create_value(Value::Constant(ConstantData::Int(ConstantInt::Int64(1))));
    let id = ret(&mut function, block, Some(value));
    let error = convert_function(&X86_64, &function).err().unwrap();
    assert_eq!(
        error,
        Error::Todo { inst: Some(id), kind: OperandKind::Ret, reason: Reason::Operand }
    );
    assert_eq!(error.to_string(), "Todo(convert value)");
}

#[test]
fn one_instruction_is_converted_in_a_context() {
    let mut function = Function::new("f".to_string(), Types::new().i32());
    let block = new_block(&mut function);
    let value = constant(&mut function, -7);
    let id = ret(&mut function, block, Some(value));
    let mut ctx = Context { ir_data: &function.data, dag_data: Data::new(), block };
    let root = ctx.create_node(NodeData::Root);
    assert_eq!(root, NodeId(0));
    let node = convert(&mut ctx, function.data.inst_ref(id)).ok().unwrap();
    assert_eq!(node, NodeId(2));
    let again = IrToDag::convert(&mut ctx, function.data.inst_ref(id)).ok().unwrap();
    assert_eq!(again, NodeId(4));
    assert!(is_int(&ctx.dag_data.node_ref(NodeId(3)).data, -7));
    assert!(is_ret_of(&ctx.dag_data.node_ref(again).data, NodeId(3)));
    ctx.dag_data.node_ref_mut(root).set_chain(again);
    assert_eq!(ctx.dag_data.node_ref(root).chain, Some(again));
}

#[test]
fn node_data_has_labels_and_arguments() {
    let ret = NodeData::Inst(Inst::new(Opcode::Ret, vec![NodeId(4), NodeId(9)]));
    assert_eq!(ret.args(), &[NodeId(4), NodeId(9)]);
    assert_eq!(ret.dot_label(), "Ret");
    assert_eq!(NodeData::Int32(-12).dot_label(), "-12");
    assert_eq!(NodeData::Int32(i32::MIN).dot_label(), "-2147483648");
    assert_eq!(NodeData::Int32(0).dot_label(), "0");
    assert_eq!(NodeData::Root.dot_label(), "Root");
    assert!(NodeData::Root.args().is_empty());
    assert!(is_root(&<NodeData as NodeDataOf>::root()));
    assert_eq!(Opcode::GetElementPtr.as_str(), "GetElementPtr");
    let node: Node<NodeData> = Node::root(BasicBlockId(3));
    assert!(is_root(&node.data));
    assert_eq!(node.parent, BasicBlockId(3));
    assert_eq!(node.chain, None);
    assert_eq!(node.id, None);
}

#[test]
fn a_graph_layout_keeps_blocks_in_order() {
    let mut layout = Layout::new();
    assert_eq!(layout.first_block(), None);
    layout.append_block(BasicBlockId(5));
    layout.append_block(BasicBlockId(2));
    layout.append_block(BasicBlockId(5));
    assert_eq!(layout.first_block(), Some(BasicBlockId(5)));
    assert_eq!(layout.last_block(), Some(BasicBlockId(2)));
    assert_eq!(layout.next_block_of(BasicBlockId(5)), Some(BasicBlockId(2)));
    assert!(layout.contains_block(BasicBlockId(2)));
    assert!(!layout.contains_block(BasicBlockId(3)));
    assert_eq!(layout.node_root_of(BasicBlockId(2)), None);
    layout.set_node_root(NodeId(8), BasicBlockId(2));
    assert_eq!(layout.node_root_of(BasicBlockId(2)), Some(NodeId(8)));
    assert_eq!(layout.node_root_of(BasicBlockId(5)), None);
    assert_eq!(layout.node_root_of(BasicBlockId(9)), None);
}

#[test]
fn a_module_is_converted_function_by_function() {
    let mut module = Module::new();
    module.functions.push(returning(&[42]));
    let mut bad = Function::new("bad".to_string(), module.types.void());
    let block = new_block(&mut bad);
    ret(&mut bad, block, None);
    module.functions.push(bad);
    module.functions.push(returning(&[0, 1]));
    let graphs = convert_module(&X86_64, &module);
    assert_eq!(graphs.functions.len(), 3);
    assert!(graphs.functions[0].is_ok());
    assert_eq!(graphs.functions[1].as_ref().err().map(|e| e.reason()), Some(Reason::RetVoid));
    let last = graphs.functions[2].as_ref().ok().unwrap();
    assert!(last.data.node(NodeId(5)).is_some());
    assert!(last.data.node(NodeId(6)).is_none());
}

#[test]
fn a_graph_is_drawn_with_its_chain_and_its_arguments() {
    let function = returning(&[42]);
    let graph = convert_function(&X86_64, &function).ok().unwrap();
    let expected = "digraph {\n  node [shape=record]\n  \
        id0 [label=\"{{<ch>ch|<dep>dep}|Root}\"]\n  \
        id1 [label=\"{{<ch>ch|<dep>dep}|42}\"]\n  \
        id2 [label=\"{{<ch>ch|<dep>dep|<a0>0}|Ret}\"]\n  \
        id0:ch -> id2:ch [color=red]\n  \
        id2:a0 -> id1:dep [color=blue]\n\
        }\n";
    assert_eq!(dot(&graph.data, NodeId(0)), expected);
}

#[test]
fn a_drawing_follows_one_chain() {
    let mut data = Data::new();
    assert_eq!(dot(&data, NodeId(0)), "digraph {\n  node [shape=record]\n}\n");
    let block = BasicBlockId(0);
    let root = data.create_node(Node::root(block));
    let x = data.create_node(Node::new(NodeData::Int32(-1), block));
    let y = data.create_node(Node::new(NodeData::Int32(2), block));
    let add = data.create_node(Node::new(NodeData::Inst(Inst::new(Opcode::Add, vec![x, y])), block));
    let ret = data.create_node(Node::new(NodeData::Inst(Inst::new(Opcode::Ret, vec![add])), block));
    let other = data.create_node(Node::root(BasicBlockId(1)));
    data.node_ref_mut(root).set_chain(ret);
    data.node_ref_mut(ret).set_chain(add);
    data.node_ref_mut(other).set_chain(NodeId(17));
    let declared = "digraph {\n  node [shape=record]\n  \
        id0 [label=\"{{<ch>ch|<dep>dep}|Root}\"]\n  \
        id1 [label=\"{{<ch>ch|<dep>dep}|-1}\"]\n  \
        id2 [label=\"{{<ch>ch|<dep>dep}|2}\"]\n  \
        id3 [label=\"{{<ch>ch|<dep>dep|<a0>0|<a1>1}|Add}\"]\n  \
        id4 [label=\"{{<ch>ch|<dep>dep|<a0>0}|Ret}\"]\n  \
        id5 [label=\"{{<ch>ch|<dep>dep}|Root}\"]\n";
    let chain = "  id0:ch -> id4:ch [color=red]\n  \
        id4:a0 -> id3:dep [color=blue]\n  \
        id4:ch -> id3:ch [color=red]\n  \
        id3:a0 -> id1:dep [color=blue]\n  \
        id3:a1 -> id2:dep [color=blue]\n";
    assert_eq!(dot(&data, root), format!("{}{}}}\n", declared, chain));
    assert_eq!(dot(&data, other), format!("{}}}\n", declared));
    assert_eq!(dot(&data, x), format!("{}}}\n", declared));
    assert_eq!(dot(&data, NodeId(99)), format!("{}}}\n", declared));
    data.node_ref_mut(add).set_chain(ret);
    let turn = "  id3:ch -> id4:ch [color=red]\n  id4:a0 -> id3:dep [color=blue]\n";
    let step = "  id4:ch -> id3:ch [color=red]\n  \
        id3:a0 -> id1:dep [color=blue]\n  \
        id3:a1 -> id2:dep [color=blue]\n";
    let round = format!("{}{}", step, turn);
    assert_eq!(
        dot(&data, ret),
        format!("{}{}{}{}}}\n", declared, round, round, round)
    );
}
