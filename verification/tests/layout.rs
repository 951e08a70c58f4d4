use vicis::ir::function::basic_block::{BasicBlock, BasicBlockId};
use vicis::ir::function::data::Data;
use vicis::ir::function::instruction::{
    Instruction, InstructionId, Opcode, Operand, OperandKind,
};
use vicis::ir::function::layout::Layout;
use vicis::ir::function::{Function, Parameter, PreemptionSpecifier};
use vicis::ir::module::name::Name;
use vicis::ir::module::Module;
use vicis::ir::types::Types;
use vicis::ir::value::{ConstantData, ConstantInt, Value, ValueId};

fn blocks_of(layout: &Layout) -> Vec<BasicBlockId> {
    let mut blocks = Vec::new();
    let mut iter = layout.block_iter();
    while let Some(block) = iter.next() {
        blocks.push(block);
    }
    blocks
}

fn insts_of(layout: &Layout, block: BasicBlockId) -> Vec<InstructionId> {
    let mut insts = Vec::new();
    let mut iter = layout.inst_iter(block);
    while let Some(inst) = iter.next() {
        insts.push(inst);
    }
    insts
}

fn insts_from_the_back(layout: &Layout, block: BasicBlockId) -> Vec<InstructionId> {
    let mut insts = Vec::new();
    let mut iter = layout.inst_iter(block);
    while let Some(inst) = iter.next_back() {
        insts.push(inst);
    }
    insts
}

#[test]
fn an_empty_layout_has_no_blocks() {
    let layout = Layout::new();
    assert_eq!(layout.first_block(), None);
    assert_eq!(layout.last_block(), None);
    assert!(!layout.contains_block(BasicBlockId(0)));
    assert!(!layout.contains_inst(InstructionId(0)));
    assert!(blocks_of(&layout).is_empty());
}

#[test]
fn blocks_come_in_the_order_in_which_they_were_appended() {
    let mut layout = Layout::new();
    for id in [3, 0, 7] {
        layout.append_block(BasicBlockId(id));
    }
    assert_eq!(blocks_of(&layout), vec![BasicBlockId(3), BasicBlockId(0), BasicBlockId(7)]);
    assert_eq!(layout.first_block(), Some(BasicBlockId(3)));
    assert_eq!(layout.last_block(), Some(BasicBlockId(7)));
    assert_eq!(layout.next_block_of(BasicBlockId(3)), Some(BasicBlockId(0)));
    assert_eq!(layout.next_block_of(BasicBlockId(0)), Some(BasicBlockId(7)));
    assert_eq!(layout.next_block_of(BasicBlockId(7)), None);
    assert!(layout.contains_block(BasicBlockId(0)));
    assert!(!layout.contains_block(BasicBlockId(1)));
}

#[test]
fn a_block_is_placed_once() {
    let mut layout = Layout::new();
    layout.append_block(BasicBlockId(1));
    layout.append_block(BasicBlockId(2));
    layout.append_inst(InstructionId(0), BasicBlockId(1));
    layout.append_block(BasicBlockId(1));
    assert_eq!(blocks_of(&layout), vec![BasicBlockId(1), BasicBlockId(2)]);
    assert_eq!(layout.last_block(), Some(BasicBlockId(2)));
    assert_eq!(insts_of(&layout, BasicBlockId(1)), vec![InstructionId(0)]);
}

#[test]
fn instructions_are_kept_by_block() {
    let mut layout = Layout::new();
    let first = BasicBlockId(0);
    let second = BasicBlockId(1);
    let third = BasicBlockId(2);
    layout.append_block(first);
    layout.append_block(second);
    layout.append_block(third);
    layout.append_inst(InstructionId(10), first);
    layout.append_inst(InstructionId(20), second);
    layout.append_inst(InstructionId(11), first);
    layout.append_inst(InstructionId(12), first);
    layout.append_inst(InstructionId(21), second);
    assert_eq!(
        insts_of(&layout, first),
        vec![InstructionId(10), InstructionId(11), InstructionId(12)]
    );
    assert_eq!(insts_of(&layout, second), vec![InstructionId(20), InstructionId(21)]);
    assert!(insts_of(&layout, third).is_empty());
    assert_eq!(
        insts_from_the_back(&layout, first),
        vec![InstructionId(12), InstructionId(11), InstructionId(10)]
    );
    assert!(insts_from_the_back(&layout, third).is_empty());
    assert_eq!(layout.first_inst_of(first), Some(InstructionId(10)));
    assert_eq!(layout.last_inst_of(first), Some(InstructionId(12)));
    assert_eq!(layout.first_inst_of(third), None);
    assert_eq!(layout.last_inst_of(third), None);
    assert!(layout.contains_inst(InstructionId(21)));
    assert!(!layout.contains_inst(InstructionId(22)));
}

#[test]
fn an_instruction_is_placed_once() {
    let mut layout = Layout::new();
    layout.append_block(BasicBlockId(0));
    layout.append_block(BasicBlockId(1));
    layout.append_inst(InstructionId(5), BasicBlockId(0));
    layout.append_inst(InstructionId(6), BasicBlockId(0));
    layout.append_inst(InstructionId(5), BasicBlockId(0));
    layout.append_inst(InstructionId(5), BasicBlockId(1));
    assert_eq!(insts_of(&layout, BasicBlockId(0)), vec![InstructionId(5), InstructionId(6)]);
    assert!(insts_of(&layout, BasicBlockId(1)).is_empty());
}

#[test]
fn the_two_ends_of_an_iterator_meet() {
    let mut layout = Layout::new();
    layout.append_block(BasicBlockId(0));
    for id in 0..4 {
        layout.append_inst(InstructionId(id), BasicBlockId(0));
    }
    let mut iter = layout.inst_iter(BasicBlockId(0));
    assert_eq!(iter.next(), Some(InstructionId(0)));
    assert_eq!(iter.next_back(), Some(InstructionId(3)));
    assert_eq!(iter.next_back(), Some(InstructionId(2)));
    assert_eq!(iter.next(), Some(InstructionId(1)));
    assert_eq!(iter.next(), None);
    assert_eq!(iter.next_back(), None);
}

#[test]
fn data_hands_out_ids_in_order() {
    let mut data = Data::new();
    assert_eq!(data.create_block(), BasicBlockId(0));
    assert_eq!(data.create_block(), BasicBlockId(1));
    let br = Instruction::new(Opcode::Br, Operand::Br { block: BasicBlockId(1) }, BasicBlockId(0));
    assert_eq!(br.id, None);
    assert_eq!(br.operand.kind(), OperandKind::Br);
    let first = data.create_inst(br.clone());
    let second = data.create_inst(br);
    assert_eq!(first, InstructionId(0));
    assert_eq!(second, InstructionId(1));
    assert_eq!(data.inst_ref(second).id, Some(second));
    assert_eq!(data.inst_ref(second).opcode, Opcode::Br);
    assert_eq!(data.inst_ref(second).parent, BasicBlockId(0));
    assert_eq!(data.inst(first).map(|inst| inst.id), Some(Some(first)));
    assert!(data.inst(InstructionId(2)).is_none());
    let value = Value::Constant(ConstantData::Int(ConstantInt::Int32(3)));
    assert_eq!(data.create_value(value), ValueId(0));
    assert_eq!(data.create_value(Value::Instruction(first)), ValueId(1));
    assert_eq!(data.create_value(Value::Argument(2)), ValueId(2));
    assert_eq!(data.value(ValueId(0)), Some(value));
    assert_eq!(*data.value_ref(ValueId(1)), Value::Instruction(first));
    assert_eq!(data.value(ValueId(3)), None);
    assert!(data.block(BasicBlockId(1)).is_some());
    assert!(data.block(BasicBlockId(2)).is_none());
}

#[test]
fn blocks_record_their_neighbours() {
    let mut data = Data::new();
    let head = data.create_block();
    let tail = data.create_block();
    data.block_ref_mut(head).add_succ(tail);
    data.block_ref_mut(head).add_succ(tail);
    data.block_ref_mut(tail).add_pred(head);
    data.block_ref_mut(tail).add_pred(tail);
    assert!(data.block_ref(head).preds.is_empty());
    assert_eq!(data.block_ref(head).succs.len(), 1);
    assert!(data.block_ref(head).succs.contains(&tail.0));
    assert_eq!(data.block_ref(tail).preds.len(), 2);
    assert!(data.block_ref(tail).preds.contains(&head.0));
    assert!(data.block_ref(tail).preds.contains(&tail.0));
    let block = BasicBlock::new();
    assert!(block.preds.is_empty() && block.succs.is_empty());
}

#[test]
fn a_new_function_is_empty() {
    let types = Types::new();
    let function = Function::new("main".to_string(), types.i32());
    assert_eq!(function.name, "main");
    assert_eq!(function.result_ty, types.i32());
    assert!(!function.is_var_arg);
    assert!(function.params.is_empty());
    assert_eq!(function.preemption_specifier, PreemptionSpecifier::DsoPreemptable);
    assert_eq!(function.layout.first_block(), None);
    assert!(function.data.inst(InstructionId(0)).is_none());
    let module = Module::new();
    assert!(module.functions.is_empty());
    assert_eq!(module.name, "");
    assert_eq!(module.source_filename, "");
    assert_eq!(module.target.triple, "");
    assert_eq!(module.target.datalayout, "");
    assert_eq!(module.types.len(), 6);
}

#[test]
fn a_parameter_is_written_with_its_type() {
    let mut types = Types::new();
    let i32_ty = types.i32();
    let ptr = types.pointer_to(i32_ty);
    let numbered = Parameter { name: Name::Number(0), ty: i32_ty };
    let named = Parameter { name: Name::Name("argv".to_string()), ty: ptr };
    assert_eq!(numbered.to_string(&types), "i32 %Number(0)");
    assert_eq!(named.to_string(&types), "i32* %Name(\"argv\")");
}

#[test]
fn a_function_is_written_with_its_signature_and_its_blocks() {
    let mut types = Types::new();
    let i32_ty = types.i32();
    let i8_ty = types.i8();
    let ptr = types.pointer_to(i8_ty);
    let ptr_ptr = types.pointer_to(ptr);
    let mut function = Function::new("main".to_string(), i32_ty);
    assert_eq!(function.to_string(&types), "define DsoPreemptable i32 @main() {\n}\n");
    function.preemption_specifier = PreemptionSpecifier::DsoLocal;
    function.params.push(Parameter { name: Name::Number(0), ty: i32_ty });
    assert_eq!(function.to_string(&types), "define DsoLocal i32 @main(i32 %Number(0)) {\n}\n");
    function.params.push(Parameter { name: Name::Name("argv".to_string()), ty: ptr_ptr });
    function.params.push(Parameter { name: Name::Name("a\"b".to_string()), ty: i8_ty });
    let _unplaced = function.data.create_block();
    for _ in 0..2 {
        let block = function.data.create_block();
        function.layout.append_block(block);
    }
    assert_eq!(
        function.to_string(&types),
        "define DsoLocal i32 @main(i32 %Number(0), i8** %Name(\"argv\"), i8 %Name(\"a\\\"b\")) \
         {\nId { idx: 1 }\nId { idx: 2 }\n}\n"
    );
}

#[test]
fn an_instruction_can_be_rewritten_in_place() {
    let mut data = Data::new();
    let block = data.create_block();
    let first = data.create_inst(Instruction::new(Opcode::Invalid, Operand::Invalid, block));
    let second = data.create_inst(Instruction::new(Opcode::Invalid, Operand::Invalid, block));
    {
        let inst = data.inst_ref_mut(second);
        assert_eq!(inst.id, Some(second));
        inst.opcode = Opcode::Br;
        inst.operand = Operand::Br { block };
    }
    assert_eq!(data.inst_ref(second).opcode, Opcode::Br);
    assert_eq!(data.inst_ref(second).operand, Operand::Br { block });
    assert_eq!(data.inst_ref(second).id, Some(second));
    assert_eq!(data.inst_ref(first).opcode, Opcode::Invalid);
    assert_eq!(data.inst_ref(first).operand, Operand::Invalid);
}
