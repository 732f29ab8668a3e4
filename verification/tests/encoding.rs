//! The instruction encoder, operation by operation.

use wasm_jit::bytecode::{BasicBlock, OpCode};
use wasm_jit::encoder::{
    compile_basic_block, compile_op, immediate_of, register_slot, WasmExecutorInfo,
};
use wasm_jit::target::WasmOp;

fn info() -> WasmExecutorInfo {
    WasmExecutorInfo { store_global_fn: 0, load_global_fn: 1 }
}

fn encode(op: OpCode) -> Option<Vec<WasmOp>> {
    let mut out = vec![WasmOp::Unreachable];
    if compile_op(&mut out, op, &info()) {
        let code: Vec<WasmOp> = out.drain(1..).collect();
        assert_eq!(out, vec![WasmOp::Unreachable]);
        Some(code)
    } else {
        assert_eq!(out, vec![WasmOp::Unreachable]);
        None
    }
}

#[test]
fn value_register_lives_one_slot_up() {
    assert_eq!(register_slot(0), 1);
    assert_eq!(register_slot(7), 8);
    assert_eq!(register_slot(15), 16);
}

#[test]
fn immediates_keep_the_bit_pattern() {
    assert_eq!(immediate_of(0), 0);
    assert_eq!(immediate_of(1), 1);
    assert_eq!(immediate_of(0x7fff_ffff), i32::MAX);
    assert_eq!(immediate_of(0x8000_0000), i32::MIN);
    assert_eq!(immediate_of(0xffff_ffff), -1);
    assert_eq!(immediate_of(0xffff_fffe) as u32, 0xffff_fffe);
}

#[test]
fn return_is_a_return() {
    assert_eq!(encode(OpCode::Return), Some(vec![WasmOp::Return]));
}

#[test]
fn branch_writes_the_dispatch_register_only() {
    assert_eq!(
        encode(OpCode::Branch(3)),
        Some(vec![WasmOp::I32Const(3), WasmOp::SetLocal(0)])
    );
    let code = encode(OpCode::Branch(0x8000_0001)).unwrap();
    assert_eq!(code, vec![WasmOp::I32Const(i32::MIN + 1), WasmOp::SetLocal(0)]);
    let writes: Vec<&WasmOp> =
        code.iter().filter(|op| matches!(op, WasmOp::SetLocal(_))).collect();
    assert_eq!(writes, vec![&WasmOp::SetLocal(0)]);
}

#[test]
fn conditional_branch_selects_on_the_accumulator() {
    assert_eq!(
        encode(OpCode::ConditionalBranch(2, 5)),
        Some(vec![
            WasmOp::I32Const(2),
            WasmOp::I32Const(5),
            WasmOp::GetLocal(1),
            WasmOp::I64Const(0),
            WasmOp::I64Ne,
            WasmOp::Select,
            WasmOp::SetLocal(0),
        ])
    );
}

#[test]
fn add_reads_two_registers_and_writes_the_accumulator() {
    assert_eq!(
        encode(OpCode::SIAdd(1, 2)),
        Some(vec![
            WasmOp::GetLocal(2),
            WasmOp::GetLocal(3),
            WasmOp::I64Add,
            WasmOp::SetLocal(1),
        ])
    );
}

#[test]
fn equality_widens_the_boolean() {
    assert_eq!(
        encode(OpCode::Eq(15, 0)),
        Some(vec![
            WasmOp::GetLocal(16),
            WasmOp::GetLocal(1),
            WasmOp::I64Eq,
            WasmOp::I64ExtendSI32,
            WasmOp::SetLocal(1),
        ])
    );
}

#[test]
fn constant_is_written_to_its_register() {
    assert_eq!(
        encode(OpCode::SIConst64(4, -7)),
        Some(vec![WasmOp::I64Const(-7), WasmOp::SetLocal(5)])
    );
}

#[test]
fn load_global_calls_the_second_import() {
    assert_eq!(
        encode(OpCode::LoadGlobal(3, 9)),
        Some(vec![WasmOp::I32Const(9), WasmOp::Call(1), WasmOp::SetLocal(4)])
    );
}

#[test]
fn store_global_passes_index_then_value() {
    assert_eq!(
        encode(OpCode::StoreGlobal(9, 3)),
        Some(vec![WasmOp::I32Const(9), WasmOp::GetLocal(4), WasmOp::Call(0)])
    );
}

#[test]
fn host_function_indices_come_from_the_info() {
    let info = WasmExecutorInfo { store_global_fn: 11, load_global_fn: 12 };
    let mut out = Vec::new();
    assert!(compile_op(&mut out, OpCode::StoreGlobal(0, 0), &info));
    assert!(compile_op(&mut out, OpCode::LoadGlobal(0, 0), &info));
    assert_eq!(out[2], WasmOp::Call(11));
    assert_eq!(out[4], WasmOp::Call(12));
}

#[test]
fn operations_outside_the_modeled_set_are_refused() {
    let refused = [
        OpCode::SISub(1, 2),
        OpCode::SIMul(1, 2),
        OpCode::UIAdd(1, 2),
        OpCode::FAdd(1, 2),
        OpCode::Shl(1, 2),
        OpCode::LogicalNot(1),
        OpCode::SILt(1, 2),
        OpCode::Ne(1, 2),
        OpCode::SIConst8(1, 2),
        OpCode::SIConst32(1, 2),
        OpCode::UIConst64(1, 2),
        OpCode::FConst64(1, 0x4045_0000_0000_0000),
        OpCode::Load64(1, 2),
        OpCode::Store8(1, 2),
        OpCode::Mov(1, 2),
        OpCode::Call(0),
        OpCode::CallIndirect(0),
        OpCode::CallNative(0),
        OpCode::CallNativeIndirect(0),
    ];
    for op in refused {
        assert_eq!(encode(op), None);
    }
}

#[test]
fn registers_beyond_the_register_file_are_refused() {
    assert_eq!(encode(OpCode::SIAdd(16, 0)), None);
    assert_eq!(encode(OpCode::SIAdd(0, 16)), None);
    assert_eq!(encode(OpCode::Eq(usize::MAX, 0)), None);
    assert_eq!(encode(OpCode::SIConst64(16, 1)), None);
    assert_eq!(encode(OpCode::LoadGlobal(16, 0)), None);
    assert_eq!(encode(OpCode::StoreGlobal(0, 16)), None);
    assert!(encode(OpCode::SIAdd(15, 15)).is_some());
}

#[test]
fn indices_beyond_32_bits_are_refused() {
    if usize::BITS > 32 {
        let wide = (u32::MAX as usize) + 1;
        assert_eq!(encode(OpCode::Branch(wide)), None);
        assert_eq!(encode(OpCode::ConditionalBranch(wide, 0)), None);
        assert_eq!(encode(OpCode::ConditionalBranch(0, wide)), None);
        assert_eq!(encode(OpCode::LoadGlobal(0, wide)), None);
        assert_eq!(encode(OpCode::StoreGlobal(wide, 0)), None);
    }
    assert!(encode(OpCode::Branch(u32::MAX as usize)).is_some());
    assert!(encode(OpCode::StoreGlobal(u32::MAX as usize, 0)).is_some());
}

#[test]
fn block_is_the_concatenation_of_its_operations() {
    let block = BasicBlock::from_opcodes(vec![
        OpCode::SIConst64(1, 42),
        OpCode::SIConst64(2, 66),
        OpCode::SIAdd(1, 2),
        OpCode::StoreGlobal(0, 0),
        OpCode::Return,
    ]);
    let mut out = vec![WasmOp::End];
    assert_eq!(compile_basic_block(&mut out, &block, &info()), Ok(()));
    assert_eq!(
        out,
        vec![
            WasmOp::End,
            WasmOp::I64Const(42),
            WasmOp::SetLocal(2),
            WasmOp::I64Const(66),
            WasmOp::SetLocal(3),
            WasmOp::GetLocal(2),
            WasmOp::GetLocal(3),
            WasmOp::I64Add,
            WasmOp::SetLocal(1),
            WasmOp::I32Const(0),
            WasmOp::GetLocal(1),
            WasmOp::Call(0),
            WasmOp::Return,
        ]
    );
}

#[test]
fn empty_block_has_no_code() {
    let mut out = Vec::new();
    assert_eq!(compile_basic_block(&mut out, &BasicBlock::from_opcodes(vec![]), &info()), Ok(()));
    assert!(out.is_empty());
}

#[test]
fn block_stops_at_the_first_operation_it_cannot_lower() {
    let block = BasicBlock::from_opcodes(vec![
        OpCode::SIConst64(1, 1),
        OpCode::Mov(2, 1),
        OpCode::SIConst64(3, 3),
        OpCode::SISub(1, 3),
    ]);
    let mut out = Vec::new();
    assert_eq!(compile_basic_block(&mut out, &block, &info()), Err(1));
    assert_eq!(out, vec![WasmOp::I64Const(1), WasmOp::SetLocal(2)]);
}
