use vicis::codegen::compile::compile_function;
use vicis::codegen::register::{Reg, VReg};
use vicis::codegen::slot::SlotId;
use vicis::codegen::target::x86_64::instruction::{
    InstructionData, Label, MemoryOperand, Opcode, Operand, OperandData,
};
use vicis::error::{Error, Reason};
use vicis::ir::function::basic_block::BasicBlockId;
use vicis::ir::function::instruction::{
    ICmpCond, Instruction, InstructionId, Opcode as IrOpcode, Operand as IrOperand, OperandKind,
};
use vicis::ir::function::Function;
use vicis::ir::types::Types;
use vicis::ir::value::{ConstantData, ConstantInt, Value, ValueId};

fn int32(function: &mut Function, i: i32) -> ValueId {
    function
        .data
        .create_value(Value::Constant(ConstantData::Int(ConstantInt::Int32(i))))
}

fn result_of(function: &mut Function, inst: InstructionId) -> ValueId {
    function.data.create_value(Value::Instruction(inst))
}

fn block(function: &mut Function) -> BasicBlockId {
    let id = function.data.create_block();
    function.layout.append_block(id);
    id
}

fn place(
    function: &mut Function,
    parent: BasicBlockId,
    opcode: IrOpcode,
    operand: IrOperand,
) -> InstructionId {
    let id = function
        .data
        .create_inst(Instruction::new(opcode, operand, parent));
    function.layout.append_inst(id, parent);
    id
}

fn inst(opcode: Opcode, operands: Vec<Operand>) -> InstructionData {
    InstructionData { opcode, operands }
}

fn eax() -> OperandData {
    OperandData::Reg(Reg(0, 0))
}

#[test]
fn ret42() {
    let types = Types::new();
    let mut function = Function::new("main".to_string(), types.i32());
    let entry = block(&mut function);
    let value = int32(&mut function, 42);
    place(
        &mut function,
        entry,
        IrOpcode::Ret,
        IrOperand::Ret { ty: types.i32(), val: Some(value) },
    );
    let lowered = compile_function(&function, &types).unwrap();
    assert_eq!(
        lowered.insts,
        vec![
            inst(
                Opcode::MOVri32,
                vec![Operand::output(eax()), Operand::input(OperandData::Int32(42))]
            ),
            inst(Opcode::RET, vec![]),
        ]
    );
    assert_eq!(lowered.block_starts, vec![0]);
    assert_eq!(lowered.label_of(entry), Some(Label(0)));
}

#[test]
fn store_load_round_trip() {
    let mut types = Types::new();
    let i32_ty = types.i32();
    let ptr_ty = types.pointer_to(i32_ty);
    let mut function = Function::new("f".to_string(), i32_ty);
    let entry = block(&mut function);
    let alloca = place(
        &mut function,
        entry,
        IrOpcode::Alloca,
        IrOperand::Alloca {
            ty: i32_ty,
            num_elements: ConstantData::Int(ConstantInt::Int32(1)),
            align: 4,
        },
    );
    let ptr = result_of(&mut function, alloca);
    let seven = int32(&mut function, 7);
    place(
        &mut function,
        entry,
        IrOpcode::Store,
        IrOperand::Store { ty: ptr_ty, value: seven, addr: ptr, align: 4 },
    );
    let load = place(
        &mut function,
        entry,
        IrOpcode::Load,
        IrOperand::Load { ty: i32_ty, addr: ptr, align: 4 },
    );
    let loaded = result_of(&mut function, load);
    place(
        &mut function,
        entry,
        IrOpcode::Ret,
        IrOperand::Ret { ty: i32_ty, val: Some(loaded) },
    );
    let lowered = compile_function(&function, &types).unwrap();
    let slot = OperandData::Mem(MemoryOperand::Slot(SlotId(0)));
    let reg = OperandData::VReg(VReg(0));
    assert_eq!(
        lowered.insts,
        vec![
            inst(
                Opcode::MOVmi32,
                vec![Operand::output(slot), Operand::input(OperandData::Int32(7))]
            ),
            inst(Opcode::MOVrm32, vec![Operand::output(reg), Operand::input(slot)]),
            inst(Opcode::MOVrr32, vec![Operand::output(eax()), Operand::input(reg)]),
            inst(Opcode::RET, vec![]),
        ]
    );
    assert_eq!(lowered.slot_of(alloca), Some(SlotId(0)));
    assert_eq!(lowered.vreg_of(load), Some(VReg(0)));
    assert_eq!(lowered.vregs.type_for(VReg(0)), Some(i32_ty));
    assert_eq!(lowered.slots.type_for(SlotId(0)), Some(i32_ty));
}

#[test]
fn ret_void_is_an_error() {
    let types = Types::new();
    let mut function = Function::new("f".to_string(), types.void());
    let entry = block(&mut function);
    let ret = place(
        &mut function,
        entry,
        IrOpcode::Ret,
        IrOperand::Ret { ty: types.void(), val: None },
    );
    let error = compile_function(&function, &types).err().unwrap();
    assert_eq!(
        error,
        Error::Todo { inst: Some(ret), kind: OperandKind::Ret, reason: Reason::RetVoid }
    );
    assert_eq!(error.to_string(), "Todo(ret void)");
}

fn branch_on(cond: ICmpCond) -> Result<Vec<InstructionData>, Error> {
    let types = Types::new();
    let i32_ty = types.i32();
    let mut function = Function::new("f".to_string(), i32_ty);
    let entry = block(&mut function);
    let on_true = block(&mut function);
    let on_false = block(&mut function);
    let alloca = place(
        &mut function,
        entry,
        IrOpcode::Alloca,
        IrOperand::Alloca {
            ty: i32_ty,
            num_elements: ConstantData::Int(ConstantInt::Int32(1)),
            align: 4,
        },
    );
    let ptr = result_of(&mut function, alloca);
    let load = place(
        &mut function,
        entry,
        IrOpcode::Load,
        IrOperand::Load { ty: i32_ty, addr: ptr, align: 4 },
    );
    let x = result_of(&mut function, load);
    let ten = int32(&mut function, 10);
    let icmp = place(
        &mut function,
        entry,
        IrOpcode::ICmp,
        IrOperand::ICmp { ty: i32_ty, cond, lhs: x, rhs: ten },
    );
    let flag = result_of(&mut function, icmp);
    place(
        &mut function,
        entry,
        IrOpcode::CondBr,
        IrOperand::CondBr { arg: flag, true_block: on_true, false_block: on_false },
    );
    let one = int32(&mut function, 1);
    place(
        &mut function,
        on_true,
        IrOpcode::Ret,
        IrOperand::Ret { ty: i32_ty, val: Some(one) },
    );
    let two = int32(&mut function, 2);
    place(
        &mut function,
        on_false,
        IrOpcode::Ret,
        IrOperand::Ret { ty: i32_ty, val: Some(two) },
    );
    compile_function(&function, &types).map(|lowered| lowered.insts)
}

#[test]
fn conditional_branch_shape() {
    let table = [
        (ICmpCond::Eq, Opcode::JE),
        (ICmpCond::Ne, Opcode::JNE),
        (ICmpCond::Sle, Opcode::JLE),
        (ICmpCond::Slt, Opcode::JL),
        (ICmpCond::Sge, Opcode::JGE),
        (ICmpCond::Sgt, Opcode::JG),
    ];
    for (cond, jump) in table {
        let insts = branch_on(cond).unwrap();
        assert_eq!(
            insts[1..4].to_vec(),
            vec![
                inst(
                    Opcode::CMPri32,
                    vec![
                        Operand::input(OperandData::VReg(VReg(0))),
                        Operand::input(OperandData::Int32(10))
                    ]
                ),
                inst(jump, vec![Operand::input(OperandData::Block(Label(1)))]),
                inst(Opcode::JMP, vec![Operand::input(OperandData::Block(Label(2)))]),
            ]
        );
        assert_eq!(insts.len(), 8);
    }
}

#[test]
fn unlisted_predicate_is_an_error() {
    for cond in [ICmpCond::Ugt, ICmpCond::Uge, ICmpCond::Ult, ICmpCond::Ule] {
        let error = branch_on(cond).err().unwrap();
        assert_eq!(error.reason(), Reason::Predicate);
        assert!(matches!(error, Error::Todo { kind: OperandKind::CondBr, .. }));
    }
}
