use vicis::codegen::compile::{compile_function, compile_module};
use vicis::codegen::lower::LoweringContext;
use vicis::codegen::register::{Reg, VReg};
use vicis::codegen::slot::SlotId;
use vicis::codegen::target::x86_64::instruction::{
    InstructionData, Label, MemoryOperand, Opcode, Operand, OperandData, Role,
};
use vicis::codegen::target::x86_64::lower::lower;
use vicis::error::{Error, Reason};
use vicis::ir::function::basic_block::BasicBlockId;
use vicis::ir::function::instruction::{
    ICmpCond, Instruction, InstructionId, Opcode as IrOpcode, Operand as IrOperand, OperandKind,
};
use vicis::ir::function::Function;
use vicis::ir::module::Module;
use vicis::ir::types::Types;
use vicis::ir::value::{ConstantData, ConstantInt, Value, ValueId};

fn constant(function: &mut Function, i: i32) -> ValueId {
    function.data.create_value(Value::Constant(ConstantData::Int(ConstantInt::Int32(i))))
}

fn value_of(function: &mut Function, inst: InstructionId) -> ValueId {
    function.data.create_value(Value::Instruction(inst))
}

fn new_block(function: &mut Function) -> BasicBlockId {
    let id = function.data.create_block();
    function.layout.append_block(id);
    id
}

fn put(
    function: &mut Function,
    parent: BasicBlockId,
    opcode: IrOpcode,
    operand: IrOperand,
) -> InstructionId {
    let id = function.data.create_inst(Instruction::new(opcode, operand, parent));
    function.layout.append_inst(id, parent);
    id
}

fn alloca(function: &mut Function, parent: BasicBlockId, types: &Types) -> ValueId {
    let id = put(
        function,
        parent,
        IrOpcode::Alloca,
        IrOperand::Alloca {
            ty: types.i32(),
            num_elements: ConstantData::Int(ConstantInt::Int32(1)),
            align: 4,
        },
    );
    value_of(function, id)
}

fn load(
    function: &mut Function,
    parent: BasicBlockId,
    types: &Types,
    addr: ValueId,
) -> (InstructionId, ValueId) {
    let id = put(
        function,
        parent,
        IrOpcode::Load,
        IrOperand::Load { ty: types.i32(), addr, align: 4 },
    );
    (id, value_of(function, id))
}

fn ret(function: &mut Function, parent: BasicBlockId, types: &Types, val: ValueId) -> InstructionId {
    put(function, parent, IrOpcode::Ret, IrOperand::Ret { ty: types.i32(), val: Some(val) })
}

fn binary(
    function: &mut Function,
    parent: BasicBlockId,
    types: &Types,
    opcode: IrOpcode,
    lhs: ValueId,
    rhs: ValueId,
) -> (InstructionId, ValueId) {
    let id = put(
        function,
        parent,
        opcode,
        IrOperand::IntBinary { ty: types.i32(), nsw: true, nuw: false, lhs, rhs },
    );
    (id, value_of(function, id))
}

fn mach(opcode: Opcode, operands: Vec<Operand>) -> InstructionData {
    InstructionData { opcode, operands }
}

fn out(data: OperandData) -> Operand {
    Operand { data, role: Role::Output }
}

fn inp(data: OperandData) -> Operand {
    Operand { data, role: Role::Input }
}

fn vreg(n: usize) -> OperandData {
    OperandData::VReg(VReg(n))
}

fn slot(n: usize) -> OperandData {
    OperandData::Mem(MemoryOperand::Slot(SlotId(n)))
}

fn label(n: usize) -> OperandData {
    OperandData::Block(Label(n))
}

fn eax() -> OperandData {
    OperandData::Reg(Reg(0, 0))
}

fn failure(inst: InstructionId, kind: OperandKind, reason: Reason) -> Error {
    Error::Todo { inst: Some(inst), kind, reason }
}

#[test]
fn addition_of_an_immediate() {
    let types = Types::new();
    let mut f = Function::new("f".to_string(), types.i32());
    let entry = new_block(&mut f);
    let ptr = alloca(&mut f, entry, &types);
    let (x_id, x) = load(&mut f, entry, &types, ptr);
    let five = constant(&mut f, 5);
    let (sum_id, sum) = binary(&mut f, entry, &types, IrOpcode::Add, x, five);
    ret(&mut f, entry, &types, sum);
    let lowered = compile_function(&f, &types).unwrap();
    assert_eq!(
        lowered.insts,
        vec![
            mach(Opcode::MOVrm32, vec![out(vreg(0)), inp(slot(0))]),
            mach(Opcode::MOVrr32, vec![out(vreg(1)), inp(vreg(0))]),
            mach(
                Opcode::ADDri32,
                vec![
                    Operand { data: vreg(1), role: Role::InputOutput },
                    inp(OperandData::Int32(5))
                ]
            ),
            mach(Opcode::MOVrr32, vec![out(eax()), inp(vreg(1))]),
            mach(Opcode::RET, vec![]),
        ]
    );
    assert_eq!(lowered.vreg_of(x_id), Some(VReg(0)));
    assert_eq!(lowered.vreg_of(sum_id), Some(VReg(1)));
    assert_eq!(lowered.vregs.len(), 2);
    assert_eq!(lowered.vregs.type_for(VReg(1)), Some(types.i32()));
    assert_eq!(lowered.vregs.type_for(VReg(2)), None);
}

#[test]
fn addition_of_two_registers() {
    let types = Types::new();
    let mut f = Function::new("f".to_string(), types.i32());
    let entry = new_block(&mut f);
    let p = alloca(&mut f, entry, &types);
    let q = alloca(&mut f, entry, &types);
    let (_, x) = load(&mut f, entry, &types, p);
    let (_, y) = load(&mut f, entry, &types, q);
    let (_, sum) = binary(&mut f, entry, &types, IrOpcode::Add, x, y);
    ret(&mut f, entry, &types, sum);
    let lowered = compile_function(&f, &types).unwrap();
    assert_eq!(
        lowered.insts,
        vec![
            mach(Opcode::MOVrm32, vec![out(vreg(0)), inp(slot(0))]),
            mach(Opcode::MOVrm32, vec![out(vreg(1)), inp(slot(1))]),
            mach(Opcode::MOVrr32, vec![out(vreg(2)), inp(vreg(0))]),
            mach(
                Opcode::ADDrr32,
                vec![Operand { data: vreg(2), role: Role::InputOutput }, inp(vreg(1))]
            ),
            mach(Opcode::MOVrr32, vec![out(eax()), inp(vreg(2))]),
            mach(Opcode::RET, vec![]),
        ]
    );
    assert_eq!(lowered.slots.len(), 2);
    assert_eq!(lowered.slots.type_for(SlotId(1)), Some(types.i32()));
    assert_eq!(lowered.slots.type_for(SlotId(2)), None);
}

#[test]
fn store_of_a_register() {
    let types = Types::new();
    let mut f = Function::new("f".to_string(), types.i32());
    let entry = new_block(&mut f);
    let p = alloca(&mut f, entry, &types);
    let q = alloca(&mut f, entry, &types);
    let (_, x) = load(&mut f, entry, &types, p);
    put(
        &mut f,
        entry,
        IrOpcode::Store,
        IrOperand::Store { ty: types.i32(), value: x, addr: q, align: 4 },
    );
    ret(&mut f, entry, &types, x);
    let lowered = compile_function(&f, &types).unwrap();
    assert_eq!(lowered.insts[1], mach(Opcode::MOVmr32, vec![out(slot(1)), inp(vreg(0))]));
}

fn merge_of_three() -> (Function, Types, InstructionId) {
    let types = Types::new();
    let mut f = Function::new("f".to_string(), types.i32());
    let first = new_block(&mut f);
    let second = new_block(&mut f);
    let third = new_block(&mut f);
    let join = new_block(&mut f);
    for block in [first, second, third] {
        put(&mut f, block, IrOpcode::Br, IrOperand::Br { block: join });
    }
    let one = constant(&mut f, 1);
    let two = constant(&mut f, 2);
    let three = constant(&mut f, 3);
    let phi = put(
        &mut f,
        join,
        IrOpcode::Phi,
        IrOperand::Phi {
            ty: types.i32(),
            incoming: vec![(one, third), (two, first), (three, second)],
        },
    );
    let merged = value_of(&mut f, phi);
    ret(&mut f, join, &types, merged);
    (f, types, phi)
}

#[test]
fn phi_has_an_output_and_a_pair_for_each_predecessor() {
    let (f, types, phi) = merge_of_three();
    let lowered = compile_function(&f, &types).unwrap();
    assert_eq!(
        lowered.insts,
        vec![
            mach(Opcode::JMP, vec![inp(label(3))]),
            mach(Opcode::JMP, vec![inp(label(3))]),
            mach(Opcode::JMP, vec![inp(label(3))]),
            mach(
                Opcode::Phi,
                vec![
                    out(vreg(0)),
                    inp(OperandData::Int32(1)),
                    inp(label(2)),
                    inp(OperandData::Int32(2)),
                    inp(label(0)),
                    inp(OperandData::Int32(3)),
                    inp(label(1)),
                ]
            ),
            mach(Opcode::MOVrr32, vec![out(eax()), inp(vreg(0))]),
            mach(Opcode::RET, vec![]),
        ]
    );
    assert_eq!(lowered.insts[3].operands.len(), 1 + 2 * 3);
    assert_eq!(lowered.block_starts, vec![0, 1, 2, 3]);
    assert_eq!(lowered.vreg_of(phi), Some(VReg(0)));
}

#[test]
fn a_phi_may_name_a_value_that_comes_later() {
    let types = Types::new();
    let mut f = Function::new("f".to_string(), types.i32());
    let head = new_block(&mut f);
    let body = new_block(&mut f);
    let ptr = alloca(&mut f, head, &types);
    let zero = constant(&mut f, 0);
    let next = ValueId(f.data.values.len() + 1);
    let phi = put(
        &mut f,
        head,
        IrOpcode::Phi,
        IrOperand::Phi { ty: types.i32(), incoming: vec![(zero, head), (next, body)] },
    );
    let _phi_value = value_of(&mut f, phi);
    put(&mut f, head, IrOpcode::Br, IrOperand::Br { block: body });
    let (load_id, loaded) = load(&mut f, body, &types, ptr);
    assert_eq!(loaded, next);
    put(&mut f, body, IrOpcode::Br, IrOperand::Br { block: head });
    let lowered = compile_function(&f, &types).unwrap();
    assert_eq!(lowered.vreg_of(phi), Some(VReg(0)));
    assert_eq!(lowered.vreg_of(load_id), Some(VReg(1)));
    assert_eq!(
        lowered.insts,
        vec![
            mach(
                Opcode::Phi,
                vec![
                    out(vreg(0)),
                    inp(OperandData::Int32(0)),
                    inp(label(0)),
                    inp(vreg(1)),
                    inp(label(1)),
                ]
            ),
            mach(Opcode::JMP, vec![inp(label(1))]),
            mach(Opcode::MOVrm32, vec![out(vreg(1)), inp(slot(0))]),
            mach(Opcode::JMP, vec![inp(label(0))]),
        ]
    );
}

#[test]
fn a_value_keeps_its_register_across_blocks() {
    let types = Types::new();
    let mut f = Function::new("f".to_string(), types.i32());
    let entry = new_block(&mut f);
    let exit = new_block(&mut f);
    let p = alloca(&mut f, entry, &types);
    let (x_id, x) = load(&mut f, entry, &types, p);
    put(&mut f, entry, IrOpcode::Br, IrOperand::Br { block: exit });
    put(
        &mut f,
        exit,
        IrOpcode::Store,
        IrOperand::Store { ty: types.i32(), value: x, addr: p, align: 4 },
    );
    ret(&mut f, exit, &types, x);
    let lowered = compile_function(&f, &types).unwrap();
    assert_eq!(lowered.vreg_of(x_id), Some(VReg(0)));
    assert_eq!(lowered.vregs.len(), 1);
    assert_eq!(
        lowered.insts,
        vec![
            mach(Opcode::MOVrm32, vec![out(vreg(0)), inp(slot(0))]),
            mach(Opcode::JMP, vec![inp(label(1))]),
            mach(Opcode::MOVmr32, vec![out(slot(0)), inp(vreg(0))]),
            mach(Opcode::MOVrr32, vec![out(eax()), inp(vreg(0))]),
            mach(Opcode::RET, vec![]),
        ]
    );
    assert_eq!(lowered.block_starts, vec![0, 2]);
}

#[test]
fn a_placeholder_register_is_kept_when_its_producer_is_lowered() {
    let types = Types::new();
    let mut f = Function::new("f".to_string(), types.i32());
    let entry = new_block(&mut f);
    let exit = new_block(&mut f);
    let p = alloca(&mut f, entry, &types);
    let (x_id, _) = load(&mut f, entry, &types, p);
    let (y_id, _) = load(&mut f, exit, &types, p);
    let mut ctx = LoweringContext::new(&f.data, &types, &f.layout);
    ctx.enter_block(exit);
    assert_eq!(ctx.vreg_for(x_id), None);
    assert_eq!(ctx.materialize(x_id), Ok(VReg(0)));
    assert_eq!(ctx.vreg_type(VReg(0)), Some(types.void()));
    assert_eq!(ctx.materialize(x_id), Ok(VReg(0)));
    assert_eq!(ctx.materialize(y_id), Err(Reason::Unavailable));
    assert_eq!(ctx.materialize(InstructionId(100)), Err(Reason::UnknownInstruction));
    assert_eq!(ctx.new_vreg(types.i64()), VReg(1));
    ctx.enter_block(entry);
    assert_eq!(ctx.output_vreg_for(x_id, types.i32()), VReg(0));
    assert_eq!(ctx.vreg_type(VReg(0)), Some(types.i32()));
    assert_eq!(ctx.vreg_type(VReg(1)), Some(types.i64()));
    assert_eq!(ctx.vreg_for(x_id), Some(VReg(0)));
    assert_eq!(ctx.output_vreg_for(y_id, types.i32()), VReg(2));
    assert_eq!(ctx.materialize(y_id), Ok(VReg(2)));
    assert_eq!(ctx.emitted(), 0);
}

#[test]
fn instructions_are_lowered_one_at_a_time() {
    let types = Types::new();
    let mut f = Function::new("f".to_string(), types.i32());
    let entry = new_block(&mut f);
    let other = f.data.create_block();
    let slot_id = put(
        &mut f,
        entry,
        IrOpcode::Alloca,
        IrOperand::Alloca { ty: types.i32(), num_elements: ConstantData::Undef, align: 4 },
    );
    let nine = constant(&mut f, 9);
    let ret_id = ret(&mut f, entry, &types, nine);
    let mut ctx = LoweringContext::new(&f.data, &types, &f.layout);
    ctx.enter_block(entry);
    assert_eq!(ctx.label_for(entry), Some(Label(0)));
    assert_eq!(ctx.label_for(other), None);
    assert_eq!(lower(&mut ctx, f.data.inst_ref(slot_id)), Ok(()));
    assert_eq!(ctx.slot_for(slot_id), Some(SlotId(0)));
    assert_eq!(ctx.emitted(), 0);
    assert_eq!(lower(&mut ctx, f.data.inst_ref(ret_id)), Ok(()));
    assert_eq!(ctx.emitted(), 2);
    let lowered = ctx.finish(vec![0]);
    assert_eq!(
        lowered.insts,
        vec![
            mach(Opcode::MOVri32, vec![out(eax()), inp(OperandData::Int32(9))]),
            mach(Opcode::RET, vec![]),
        ]
    );
}

#[test]
fn lowering_twice_gives_the_same_code() {
    let (f, types, _) = merge_of_three();
    let once = compile_function(&f, &types).unwrap();
    let again = compile_function(&f, &types).unwrap();
    assert_eq!(once.insts, again.insts);
    assert_eq!(once.block_starts, again.block_starts);
    assert_eq!(once.inst_id_to_vreg, again.inst_id_to_vreg);
    assert_eq!(once.inst_id_to_slot_id, again.inst_id_to_slot_id);
    assert_eq!(once.block_map, again.block_map);
}

#[test]
fn every_result_has_a_register_of_its_own() {
    let types = Types::new();
    let mut f = Function::new("f".to_string(), types.i32());
    let entry = new_block(&mut f);
    let p = alloca(&mut f, entry, &types);
    let mut results = Vec::new();
    let (first, mut last) = load(&mut f, entry, &types, p);
    results.push(first);
    for i in 0..6 {
        let k = constant(&mut f, i);
        let (id, value) = binary(&mut f, entry, &types, IrOpcode::Add, last, k);
        results.push(id);
        last = value;
    }
    ret(&mut f, entry, &types, last);
    let lowered = compile_function(&f, &types).unwrap();
    let mut seen = Vec::new();
    for id in results {
        let vreg = lowered.vreg_of(id).unwrap();
        assert!(!seen.contains(&vreg));
        assert_eq!(lowered.vregs.type_for(vreg), Some(types.i32()));
        seen.push(vreg);
    }
    assert_eq!(lowered.vregs.len(), 7);
}

#[test]
fn an_operation_other_than_addition_has_no_rule() {
    for opcode in [IrOpcode::Sub, IrOpcode::Mul] {
        let types = Types::new();
        let mut f = Function::new("f".to_string(), types.i32());
        let entry = new_block(&mut f);
        let p = alloca(&mut f, entry, &types);
        let (_, x) = load(&mut f, entry, &types, p);
        let k = constant(&mut f, 1);
        let (id, value) = binary(&mut f, entry, &types, opcode, x, k);
        ret(&mut f, entry, &types, value);
        assert_eq!(
            compile_function(&f, &types).err(),
            Some(failure(id, OperandKind::IntBinary, Reason::Operation))
        );
    }
}

#[test]
fn addition_needs_a_register_on_the_left() {
    let types = Types::new();
    let mut f = Function::new("f".to_string(), types.i32());
    let entry = new_block(&mut f);
    let one = constant(&mut f, 1);
    let two = constant(&mut f, 2);
    let (id, value) = binary(&mut f, entry, &types, IrOpcode::Add, one, two);
    ret(&mut f, entry, &types, value);
    assert_eq!(
        compile_function(&f, &types).err(),
        Some(failure(id, OperandKind::IntBinary, Reason::Operand))
    );
}

#[test]
fn an_invalid_instruction_has_no_rule() {
    let types = Types::new();
    let mut f = Function::new("f".to_string(), types.i32());
    let entry = new_block(&mut f);
    let id = put(&mut f, entry, IrOpcode::Invalid, IrOperand::Invalid);
    let error = compile_function(&f, &types).err().unwrap();
    assert_eq!(error, failure(id, OperandKind::Invalid, Reason::NoRule));
    assert_eq!(error.to_string(), "Todo(unimplemented)");
}

#[test]
fn operands_that_name_nothing_are_errors() {
    let types = Types::new();
    let mut f = Function::new("f".to_string(), types.i32());
    let entry = new_block(&mut f);
    let id = ret(&mut f, entry, &types, ValueId(50));
    assert_eq!(
        compile_function(&f, &types).err(),
        Some(failure(id, OperandKind::Ret, Reason::UnknownValue))
    );

    let mut f = Function::new("f".to_string(), types.i32());
    let entry = new_block(&mut f);
    let ghost = value_of(&mut f, InstructionId(50));
    let id = ret(&mut f, entry, &types, ghost);
    assert_eq!(
        compile_function(&f, &types).err(),
        Some(failure(id, OperandKind::Ret, Reason::UnknownInstruction))
    );

    let mut f = Function::new("f".to_string(), types.i32());
    let entry = new_block(&mut f);
    let unplaced = f.data.create_block();
    let id = put(&mut f, entry, IrOpcode::Br, IrOperand::Br { block: unplaced });
    assert_eq!(
        compile_function(&f, &types).err(),
        Some(failure(id, OperandKind::Br, Reason::UnknownBlock))
    );
}

#[test]
fn memory_is_reached_through_stack_slots_only() {
    let types = Types::new();
    let mut f = Function::new("f".to_string(), types.i32());
    let entry = new_block(&mut f);
    let p = alloca(&mut f, entry, &types);
    let (_, x) = load(&mut f, entry, &types, p);
    let (id, _) = load(&mut f, entry, &types, x);
    assert_eq!(
        compile_function(&f, &types).err(),
        Some(failure(id, OperandKind::Load, Reason::Address))
    );

    let mut f = Function::new("f".to_string(), types.i32());
    let entry = new_block(&mut f);
    let k = constant(&mut f, 4096);
    let id = put(
        &mut f,
        entry,
        IrOpcode::Store,
        IrOperand::Store { ty: types.i32(), value: k, addr: k, align: 4 },
    );
    assert_eq!(
        compile_function(&f, &types).err(),
        Some(failure(id, OperandKind::Store, Reason::Address))
    );
}

#[test]
fn only_32_bit_integers_are_loaded() {
    let types = Types::new();
    let mut f = Function::new("f".to_string(), types.i64());
    let entry = new_block(&mut f);
    let p = alloca(&mut f, entry, &types);
    let id = put(
        &mut f,
        entry,
        IrOpcode::Load,
        IrOperand::Load { ty: types.i64(), addr: p, align: 8 },
    );
    assert_eq!(
        compile_function(&f, &types).err(),
        Some(failure(id, OperandKind::Load, Reason::Type))
    );
}

#[test]
fn only_32_bit_literals_are_immediates() {
    let types = Types::new();
    let values = [
        Value::Constant(ConstantData::Int(ConstantInt::Int64(1))),
        Value::Constant(ConstantData::Int(ConstantInt::Int8(1))),
        Value::Constant(ConstantData::Int(ConstantInt::Int1(true))),
        Value::Constant(ConstantData::Undef),
        Value::Argument(0),
    ];
    for value in values {
        let mut f = Function::new("f".to_string(), types.i32());
        let entry = new_block(&mut f);
        let v = f.data.create_value(value);
        let id = ret(&mut f, entry, &types, v);
        assert_eq!(
            compile_function(&f, &types).err(),
            Some(failure(id, OperandKind::Ret, Reason::Operand))
        );
    }
}

#[test]
fn a_branch_condition_is_a_comparison() {
    let types = Types::new();
    let mut f = Function::new("f".to_string(), types.i32());
    let entry = new_block(&mut f);
    let other = new_block(&mut f);
    let p = alloca(&mut f, entry, &types);
    let (_, x) = load(&mut f, entry, &types, p);
    let id = put(
        &mut f,
        entry,
        IrOpcode::CondBr,
        IrOperand::CondBr { arg: x, true_block: other, false_block: entry },
    );
    assert_eq!(
        compile_function(&f, &types).err(),
        Some(failure(id, OperandKind::CondBr, Reason::Condition))
    );
}

#[test]
fn a_comparison_has_no_register() {
    let types = Types::new();
    let mut f = Function::new("f".to_string(), types.i32());
    let entry = new_block(&mut f);
    let p = alloca(&mut f, entry, &types);
    let (_, x) = load(&mut f, entry, &types, p);
    let k = constant(&mut f, 3);
    let icmp = put(
        &mut f,
        entry,
        IrOpcode::ICmp,
        IrOperand::ICmp { ty: types.i32(), cond: ICmpCond::Eq, lhs: x, rhs: k },
    );
    let flag = value_of(&mut f, icmp);
    let id = ret(&mut f, entry, &types, flag);
    assert_eq!(
        compile_function(&f, &types).err(),
        Some(failure(id, OperandKind::Ret, Reason::Unavailable))
    );
}

#[test]
fn a_comparison_alone_emits_nothing() {
    let types = Types::new();
    let mut f = Function::new("f".to_string(), types.i32());
    let entry = new_block(&mut f);
    let p = alloca(&mut f, entry, &types);
    let (_, x) = load(&mut f, entry, &types, p);
    let k = constant(&mut f, 3);
    put(
        &mut f,
        entry,
        IrOpcode::ICmp,
        IrOperand::ICmp { ty: types.i32(), cond: ICmpCond::Slt, lhs: x, rhs: k },
    );
    ret(&mut f, entry, &types, k);
    let lowered = compile_function(&f, &types).unwrap();
    assert_eq!(lowered.insts.len(), 3);
    assert_eq!(lowered.insts[0].opcode, Opcode::MOVrm32);
    assert_eq!(lowered.insts[1].opcode, Opcode::MOVri32);
}

#[test]
fn a_module_is_lowered_function_by_function() {
    let mut module = Module::new();
    let i32_ty = module.types.i32();
    let void = module.types.void();
    let mut good = Function::new("good".to_string(), i32_ty);
    let entry = new_block(&mut good);
    let k = constant(&mut good, 42);
    put(&mut good, entry, IrOpcode::Ret, IrOperand::Ret { ty: i32_ty, val: Some(k) });
    let mut bad = Function::new("bad".to_string(), void);
    let entry = new_block(&mut bad);
    let bad_ret = put(&mut bad, entry, IrOpcode::Ret, IrOperand::Ret { ty: void, val: None });
    let empty = Function::new("empty".to_string(), void);
    module.functions.push(good);
    module.functions.push(bad);
    module.functions.push(empty);
    let lowered = compile_module(&module);
    assert_eq!(lowered.len(), 3);
    assert_eq!(lowered[0].as_ref().unwrap().insts.len(), 2);
    assert_eq!(
        lowered[1].as_ref().err(),
        Some(&failure(bad_ret, OperandKind::Ret, Reason::RetVoid))
    );
    let nothing = lowered[2].as_ref().unwrap();
    assert!(nothing.insts.is_empty());
    assert!(nothing.block_starts.is_empty());
}

#[test]
fn an_instruction_that_is_not_part_of_a_function_cannot_record_a_result() {
    let types = Types::new();
    let mut f = Function::new("f".to_string(), types.i32());
    let entry = new_block(&mut f);
    let mut ctx = LoweringContext::new(&f.data, &types, &f.layout);
    ctx.enter_block(entry);
    let loose = Instruction::new(
        IrOpcode::Alloca,
        IrOperand::Alloca { ty: types.i32(), num_elements: ConstantData::Undef, align: 4 },
        entry,
    );
    let error = lower(&mut ctx, &loose).err().unwrap();
    assert_eq!(
        error,
        Error::Todo { inst: None, kind: OperandKind::Alloca, reason: Reason::Detached }
    );
    assert_eq!(error.reason(), Reason::Detached);
    assert_eq!(ctx.emitted(), 0);
}
