use rustc_hash::FxHashMap;
use vicis::codegen::compile::compile_module;
use vicis::codegen::function::Function as MachFunction;
use vicis::codegen::register::{Reg, VReg, VRegs};
use vicis::codegen::slot::Slots;
use vicis::codegen::target::x86_64::assembler::{
    assemble, assemble_function, register_of, AssembleError, Context, Fault, FuncId, Register,
};
use vicis::codegen::target::x86_64::instruction::{InstructionData, Opcode, Operand, OperandData};
use vicis::codegen::target::x86_64::register::{GR32, GR64};
use vicis::ir::function::instruction::{Instruction, Opcode as IrOpcode, Operand as IrOperand};
use vicis::ir::function::Function;
use vicis::ir::module::Module;
use vicis::ir::value::{ConstantData, ConstantInt, Value};

fn machine(insts: Vec<InstructionData>) -> MachFunction {
    MachFunction {
        insts,
        block_starts: vec![0],
        vregs: VRegs::new(),
        slots: Slots::new(),
        inst_id_to_vreg: FxHashMap::default(),
        inst_id_to_slot_id: FxHashMap::default(),
        block_map: FxHashMap::default(),
    }
}

fn op(opcode: Opcode, operands: Vec<OperandData>) -> InstructionData {
    InstructionData { opcode, operands: operands.into_iter().map(Operand::new).collect() }
}

fn reg(class: u16, number: u16) -> OperandData {
    OperandData::Reg(Reg(class, number))
}

fn returning(value: i32) -> Function {
    let module = Module::new();
    let i32_ty = module.types.i32();
    let mut function = Function::new("main".to_string(), i32_ty);
    let entry = function.data.create_block();
    function.layout.append_block(entry);
    let value = function
        .data
        .create_value(Value::Constant(ConstantData::Int(ConstantInt::Int32(value))));
    let ret = function.data.create_inst(Instruction::new(
        IrOpcode::Ret,
        IrOperand::Ret { ty: i32_ty, val: Some(value) },
        entry,
    ));
    function.layout.append_inst(ret, entry);
    function
}

#[test]
fn jit() {
    let mut ir = Module::new();
    ir.functions.push(returning(42));
    let module: Vec<MachFunction> =
        compile_module(&ir).into_iter().map(|function| function.unwrap()).collect();
    let mut ctx = Context::default();
    let code = assemble(&mut ctx, &module).unwrap();
    assert_eq!(code, vec![0xb8, 42, 0, 0, 0, 0xc3]);
    assert_eq!(ctx.instruction_count(), 2);
    assert_eq!(ctx.label_of(FuncId(0)), Some(1));
}

#[test]
fn frame_setup_is_encoded() {
    let function = machine(vec![
        op(Opcode::PUSH64, vec![reg(1, 5)]),
        op(Opcode::MOVrr64, vec![reg(1, 5), reg(1, 4)]),
        op(Opcode::MOVri32, vec![reg(0, 1), OperandData::Int32(-2)]),
        op(Opcode::POP64, vec![reg(1, 5)]),
        op(Opcode::RET, vec![]),
    ]);
    let mut ctx = Context::default();
    let code = assemble(&mut ctx, &vec![function]).unwrap();
    assert_eq!(
        code,
        vec![0x55, 0x48, 0x89, 0xe5, 0xb9, 0xfe, 0xff, 0xff, 0xff, 0x5d, 0xc3]
    );
}

#[test]
fn every_function_gets_the_next_label() {
    let mut ctx = Context::default();
    let first = machine(vec![op(Opcode::RET, vec![])]);
    let second = machine(vec![op(Opcode::PUSH64, vec![reg(1, 4)]), op(Opcode::RET, vec![])]);
    assert_eq!(assemble_function(&mut ctx, FuncId(7), &first), Ok(()));
    assert_eq!(assemble_function(&mut ctx, FuncId(3), &second), Ok(()));
    assert_eq!(ctx.label_of(FuncId(7)), Some(1));
    assert_eq!(ctx.label_of(FuncId(3)), Some(2));
    assert_eq!(ctx.label_of(FuncId(0)), None);
    assert_eq!(ctx.instruction_count(), 3);
    assert_eq!(ctx.new_label(), 3);
    assert_eq!(ctx.new_label(), 4);
    assert_eq!(ctx.encode().unwrap(), vec![0xc3, 0x54, 0xc3]);
}

#[test]
fn labels_can_be_recorded_by_hand() {
    let mut ctx = Context::default();
    let label = ctx.new_label();
    assert_eq!(label, 1);
    ctx.add_func_label(FuncId(5), label);
    assert_eq!(ctx.label_of(FuncId(5)), Some(1));
    ctx.add_func_label(FuncId(5), 9);
    assert_eq!(ctx.label_of(FuncId(5)), Some(9));
    assert_eq!(ctx.run_function(FuncId(5)), None);
    assert_eq!(ctx.run_function(FuncId(6)), None);
}

#[test]
fn an_instruction_without_encoding_stops_the_function() {
    let cases = vec![
        (op(Opcode::JMP, vec![]), Fault::Opcode),
        (op(Opcode::ADDrr32, vec![reg(0, 0), reg(0, 1)]), Fault::Opcode),
        (op(Opcode::PUSH64, vec![]), Fault::Operand),
        (op(Opcode::PUSH64, vec![OperandData::VReg(VReg(0))]), Fault::Operand),
        (op(Opcode::MOVri32, vec![reg(0, 0)]), Fault::Operand),
        (op(Opcode::MOVri32, vec![reg(0, 0), reg(0, 1)]), Fault::Operand),
        (op(Opcode::MOVri32, vec![reg(0, 2), OperandData::Int32(1)]), Fault::Register),
        (op(Opcode::MOVrr64, vec![reg(1, 4), reg(1, 0)]), Fault::Register),
        (op(Opcode::POP64, vec![reg(2, 0)]), Fault::Register),
    ];
    for (bad, fault) in cases {
        let function = machine(vec![op(Opcode::RET, vec![]), bad, op(Opcode::RET, vec![])]);
        let mut ctx = Context::default();
        assert_eq!(
            assemble_function(&mut ctx, FuncId(4), &function),
            Err(AssembleError::Instruction(FuncId(4), 1, fault))
        );
        assert_eq!(ctx.instruction_count(), 0);
        assert_eq!(ctx.label_of(FuncId(4)), None);
        assert_eq!(ctx.new_label(), 1);
    }
}

#[test]
fn assembling_stops_at_the_first_function_that_fails() {
    let good = machine(vec![op(Opcode::RET, vec![])]);
    let bad = machine(vec![op(Opcode::JE, vec![])]);
    let later = machine(vec![op(Opcode::RET, vec![])]);
    let mut ctx = Context::default();
    assert_eq!(
        assemble(&mut ctx, &vec![good, bad, later]),
        Err(AssembleError::Instruction(FuncId(1), 0, Fault::Opcode))
    );
    assert_eq!(ctx.instruction_count(), 1);
    assert_eq!(ctx.label_of(FuncId(0)), Some(1));
    assert_eq!(ctx.label_of(FuncId(1)), None);
    assert_eq!(ctx.label_of(FuncId(2)), None);
}

#[test]
fn registers_by_class_and_number() {
    assert_eq!(register_of(GR32::EAX.reg()), Some(Register::EAX));
    assert_eq!(register_of(GR32::ECX.reg()), Some(Register::ECX));
    assert_eq!(register_of(GR64::RSP.reg()), Some(Register::RSP));
    assert_eq!(register_of(GR64::RBP.reg()), Some(Register::RBP));
    assert_eq!(register_of(GR32::EDX.reg()), None);
    assert_eq!(register_of(GR64::RAX.reg()), None);
    assert_eq!(register_of(Reg(2, 0)), None);
}

#[test]
fn instructions_can_be_added_by_hand() {
    let mut ctx = Context::default();
    assert_eq!(ctx.instruction_count(), 0);
    assert_eq!(ctx.encode().unwrap(), Vec::<u8>::new());
    ctx.add_instruction(iced_x86::Instruction::with(iced_x86::Code::Nopd));
    ctx.add_instruction(iced_x86::Instruction::with(iced_x86::Code::Retnq));
    assert_eq!(ctx.instruction_count(), 2);
    assert_eq!(ctx.encode().unwrap(), vec![0x90, 0xc3]);
    let function = machine(vec![op(Opcode::POP64, vec![reg(1, 4)])]);
    assert_eq!(assemble_function(&mut ctx, FuncId(0), &function), Ok(()));
    assert_eq!(ctx.encode().unwrap(), vec![0x90, 0xc3, 0x5c]);
}

#[test]
fn an_instruction_that_cannot_be_laid_out_is_an_error() {
    let mut ctx = Context::default();
    ctx.add_instruction(iced_x86::Instruction::default());
    assert_eq!(ctx.encode(), Err(AssembleError::Encoder));
}
