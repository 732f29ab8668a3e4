//! The instruction encoder: one bytecode operation becomes a short run of
//! target instructions.
//!
//! Value register `r` lives in local slot `r + 1`; slot 0 is the dispatch
//! register, which holds the id of the block to run next. Block ids and global
//! indices travel as 32-bit immediates.

use vstd::prelude::*;
use crate::bytecode::{BasicBlock, OpCode, ACCUMULATOR, REGISTER_COUNT};
use crate::target::{code_of, emit, Instr, WasmOp};

verus! {

/// Local slot of the dispatch register.
pub const DISPATCH_SLOT: u32 = 0;

/// Function indices of the two host callbacks in the artifact's index space.
#[derive(Clone, Copy, Debug)]
pub struct WasmExecutorInfo {
    pub store_global_fn: u32,
    pub load_global_fn: u32,
}

/// Local slot of value register `r`.
pub open spec fn slot_of(r: usize) -> u32
    recommends
        r < REGISTER_COUNT,
{
    (r + 1) as u32
}

/// The signed 32-bit immediate whose bit pattern is the unsigned value `index`.
pub open spec fn index_immediate(index: int) -> i32
    recommends
        0 <= index <= u32::MAX,
{
    if index <= i32::MAX {
        index as i32
    } else {
        (index - 0x1_0000_0000) as i32
    }
}

/// The encoding of one operation, or `None` for an operation that cannot be
/// lowered: one outside the modeled set, one that names a register beyond the
/// register file, or one whose block id or global index does not fit 32 bits.
pub open spec fn encode_op(op: OpCode, info: WasmExecutorInfo) -> Option<Seq<Instr>> {
    match op {
        OpCode::Return => Some(seq![Instr::Return]),
        OpCode::Branch(target) => if target <= u32::MAX {
            Some(seq![Instr::I32Const(index_immediate(target as int)), Instr::SetLocal(DISPATCH_SLOT)])
        } else {
            None
        },
        OpCode::ConditionalBranch(if_true, if_false) => if if_true <= u32::MAX && if_false
            <= u32::MAX {
            Some(
                seq![
                    Instr::I32Const(index_immediate(if_true as int)),
                    Instr::I32Const(index_immediate(if_false as int)),
                    Instr::GetLocal(slot_of(ACCUMULATOR)),
                    Instr::I64Const(0),
                    Instr::I64Ne,
                    Instr::Select,
                    Instr::SetLocal(DISPATCH_SLOT),
                ],
            )
        } else {
            None
        },
        OpCode::SIAdd(a, b) => if a < REGISTER_COUNT && b < REGISTER_COUNT {
            Some(
                seq![
                    Instr::GetLocal(slot_of(a)),
                    Instr::GetLocal(slot_of(b)),
                    Instr::I64Add,
                    Instr::SetLocal(slot_of(ACCUMULATOR)),
                ],
            )
        } else {
            None
        },
        OpCode::Eq(a, b) => if a < REGISTER_COUNT && b < REGISTER_COUNT {
            Some(
                seq![
                    Instr::GetLocal(slot_of(a)),
                    Instr::GetLocal(slot_of(b)),
                    Instr::I64Eq,
                    Instr::I64ExtendSI32,
                    Instr::SetLocal(slot_of(ACCUMULATOR)),
                ],
            )
        } else {
            None
        },
        OpCode::SIConst64(reg, value) => if reg < REGISTER_COUNT {
            Some(seq![Instr::I64Const(value), Instr::SetLocal(slot_of(reg))])
        } else {
            None
        },
        OpCode::LoadGlobal(dst, src) => if dst < REGISTER_COUNT && src <= u32::MAX {
            Some(
                seq![
                    Instr::I32Const(index_immediate(src as int)),
                    Instr::Call(info.load_global_fn),
                    Instr::SetLocal(slot_of(dst)),
                ],
            )
        } else {
            None
        },
        OpCode::StoreGlobal(dst, src) => if src < REGISTER_COUNT && dst <= u32::MAX {
            Some(
                seq![
                    Instr::I32Const(index_immediate(dst as int)),
                    Instr::GetLocal(slot_of(src)),
                    Instr::Call(info.store_global_fn),
                ],
            )
        } else {
            None
        },
        _ => None,
    }
}

/// Whether the encoder can lower the operation.
pub open spec fn supported(op: OpCode, info: WasmExecutorInfo) -> bool {
    encode_op(op, info) is Some
}

/// The instructions that stand for the operation; none where it cannot be lowered.
pub open spec fn encoding(op: OpCode, info: WasmExecutorInfo) -> Seq<Instr> {
    match encode_op(op, info) {
        Some(code) => code,
        None => Seq::empty(),
    }
}

/// The encodings of the operations, one after the other.
pub open spec fn encode_ops(ops: Seq<OpCode>, info: WasmExecutorInfo) -> Seq<Instr>
    decreases ops.len(),
{
    if ops.len() == 0 {
        Seq::empty()
    } else {
        encode_ops(ops.drop_last(), info) + encoding(ops.last(), info)
    }
}

/// Whether every operation of the sequence can be lowered.
pub open spec fn all_supported(ops: Seq<OpCode>, info: WasmExecutorInfo) -> bool {
    forall|i: int| 0 <= i < ops.len() ==> supported(#[trigger] ops[i], info)
}

/// Whether `index` is the position of the first operation that cannot be lowered.
pub open spec fn first_unsupported(ops: Seq<OpCode>, info: WasmExecutorInfo, index: int) -> bool {
    &&& 0 <= index < ops.len()
    &&& !supported(ops[index], info)
    &&& all_supported(ops.take(index), info)
}

/// Encoding distributes over concatenation.
pub proof fn lemma_encode_ops_concat(a: Seq<OpCode>, b: Seq<OpCode>, info: WasmExecutorInfo)
    ensures
        encode_ops(a + b, info) == encode_ops(a, info) + encode_ops(b, info),
    decreases b.len(),
{
    if b.len() == 0 {
        assert(a + b =~= a);
        assert(encode_ops(a, info) + encode_ops(b, info) =~= encode_ops(a, info));
    } else {
        assert((a + b).drop_last() =~= a + b.drop_last());
        assert((a + b).last() == b.last());
        lemma_encode_ops_concat(a, b.drop_last(), info);
        assert(encode_ops(a + b, info) =~= encode_ops(a, info) + encode_ops(b, info));
    }
}

/// The code of an operation neither opens nor closes a scope: whatever the
/// blocks hold, the nest of scopes around them stays as the lowering built it.
pub proof fn law_encoding_is_straight_line(op: OpCode, info: WasmExecutorInfo)
    ensures
        forall|i: int|
            0 <= i < encoding(op, info).len() ==> !(#[trigger] encoding(op, info)[i]).is_structural(),
{
}

/// The code of a sequence of operations neither opens nor closes a scope.
pub proof fn law_block_code_is_straight_line(ops: Seq<OpCode>, info: WasmExecutorInfo)
    ensures
        forall|i: int|
            0 <= i < encode_ops(ops, info).len() ==> !(#[trigger] encode_ops(
                ops,
                info,
            )[i]).is_structural(),
    decreases ops.len(),
{
    if ops.len() > 0 {
        let before = encode_ops(ops.drop_last(), info);
        let last = encoding(ops.last(), info);
        law_block_code_is_straight_line(ops.drop_last(), info);
        law_encoding_is_straight_line(ops.last(), info);
        assert forall|i: int| 0 <= i < encode_ops(ops, info).len() implies !(#[trigger] encode_ops(
            ops,
            info,
        )[i]).is_structural() by {
            if i < before.len() {
                assert(encode_ops(ops, info)[i] == before[i]);
            } else {
                assert(encode_ops(ops, info)[i] == last[i - before.len()]);
            }
        }
    }
}

/// The operand of a 32-bit constant instruction for an index that fits 32 bits.
pub fn immediate_of(index: usize) -> (immediate: i32)
    requires
        index <= u32::MAX,
    ensures
        immediate == index_immediate(index as int),
{
    if index <= 0x7fff_ffff {
        index as i32
    } else {
        (index as i64 - 0x1_0000_0000) as i32
    }
}

/// The local slot that holds a value register.
pub fn register_slot(r: usize) -> (slot: u32)
    requires
        r < REGISTER_COUNT,
    ensures
        slot == slot_of(r),
        1 <= slot <= REGISTER_COUNT,
{
    (r + 1) as u32
}

/// Appends the encoding of one operation. Returns whether the operation could
/// be lowered; where it could not, nothing is appended.
pub fn compile_op(opcodes: &mut Vec<WasmOp>, op: OpCode, info: &WasmExecutorInfo) -> (done: bool)
    ensures
        done == supported(op, *info),
        code_of(final(opcodes)@) == code_of(old(opcodes)@) + encoding(op, *info),
        !done ==> final(opcodes)@ == old(opcodes)@,
{
    let ghost before = code_of(opcodes@);
    let done = match op {
        OpCode::Return => {
            emit(opcodes, WasmOp::Return);
            true
        },
        OpCode::Branch(target) => {
            if target <= 0xffff_ffff {
                emit(opcodes, WasmOp::I32Const(immediate_of(target)));
                emit(opcodes, WasmOp::SetLocal(DISPATCH_SLOT));
                true
            } else {
                false
            }
        },
        OpCode::ConditionalBranch(if_true, if_false) => {
            if if_true <= 0xffff_ffff && if_false <= 0xffff_ffff {
                emit(opcodes, WasmOp::I32Const(immediate_of(if_true)));
                emit(opcodes, WasmOp::I32Const(immediate_of(if_false)));
                emit(opcodes, WasmOp::GetLocal(register_slot(ACCUMULATOR)));
                emit(opcodes, WasmOp::I64Const(0));
                emit(opcodes, WasmOp::I64Ne);
                emit(opcodes, WasmOp::Select);
                emit(opcodes, WasmOp::SetLocal(DISPATCH_SLOT));
                true
            } else {
                false
            }
        },
        OpCode::SIAdd(a, b) => {
            if a < REGISTER_COUNT && b < REGISTER_COUNT {
                emit(opcodes, WasmOp::GetLocal(register_slot(a)));
                emit(opcodes, WasmOp::GetLocal(register_slot(b)));
                emit(opcodes, WasmOp::I64Add);
                emit(opcodes, WasmOp::SetLocal(register_slot(ACCUMULATOR)));
                true
            } else {
                false
            }
        },
        OpCode::Eq(a, b) => {
            if a < REGISTER_COUNT && b < REGISTER_COUNT {
                emit(opcodes, WasmOp::GetLocal(register_slot(a)));
                emit(opcodes, WasmOp::GetLocal(register_slot(b)));
                emit(opcodes, WasmOp::I64Eq);
                emit(opcodes, WasmOp::I64ExtendSI32);
                emit(opcodes, WasmOp::SetLocal(register_slot(ACCUMULATOR)));
                true
            } else {
                false
            }
        },
        OpCode::SIConst64(reg, value) => {
            if reg < REGISTER_COUNT {
                emit(opcodes, WasmOp::I64Const(value));
                emit(opcodes, WasmOp::SetLocal(register_slot(reg)));
                true
            } else {
                false
            }
        },
        OpCode::LoadGlobal(dst, src) => {
            if dst < REGISTER_COUNT && src <= 0xffff_ffff {
                emit(opcodes, WasmOp::I32Const(immediate_of(src)));
                emit(opcodes, WasmOp::Call(info.load_global_fn));
                emit(opcodes, WasmOp::SetLocal(register_slot(dst)));
                true
            } else {
                false
            }
        },
        OpCode::StoreGlobal(dst, src) => {
            if src < REGISTER_COUNT && dst <= 0xffff_ffff {
                emit(opcodes, WasmOp::I32Const(immediate_of(dst)));
                emit(opcodes, WasmOp::GetLocal(register_slot(src)));
                emit(opcodes, WasmOp::Call(info.store_global_fn));
                true
            } else {
                false
            }
        },
        _ => false,
    };
    assert(code_of(opcodes@) =~= before + encoding(op, *info));
    done
}

/// Appends the encodings of a block's operations, in order, and stops at the
/// first operation that cannot be lowered, the position of which is the error.
pub fn compile_basic_block(
    opcodes: &mut Vec<WasmOp>,
    basic_block: &BasicBlock,
    info: &WasmExecutorInfo,
) -> (result: Result<(), usize>)
    ensures
        match result {
            Ok(()) => {
                &&& all_supported(basic_block@, *info)
                &&& code_of(final(opcodes)@) == code_of(old(opcodes)@) + encode_ops(
                    basic_block@,
                    *info,
                )
            },
            Err(index) => {
                &&& first_unsupported(basic_block@, *info, index as int)
                &&& code_of(final(opcodes)@) == code_of(old(opcodes)@) + encode_ops(
                    basic_block@.take(index as int),
                    *info,
                )
            },
        },
{
    let ghost before = code_of(opcodes@);
    let n = basic_block.opcodes.len();
    let mut i: usize = 0;
    assert(before + encode_ops(basic_block@.take(0), *info) =~= before);
    while i < n
        invariant
            n == basic_block@.len(),
            0 <= i <= n,
            before == code_of(old(opcodes)@),
            all_supported(basic_block@.take(i as int), *info),
            code_of(opcodes@) == before + encode_ops(basic_block@.take(i as int), *info),
        decreases n - i,
    {
        let op = basic_block.opcodes[i];
        let ghost so_far = basic_block@.take(i as int);
        let ghost next = basic_block@.take(i + 1);
        assert(next.drop_last() =~= so_far);
        assert(next.last() == op);
        if !compile_op(opcodes, op, info) {
            assert(code_of(opcodes@) =~= before + encode_ops(so_far, *info));
            return Err(i);
        }
        assert(code_of(opcodes@) =~= before + encode_ops(next, *info));
        assert forall|j: int| 0 <= j < next.len() implies supported(#[trigger] next[j], *info) by {
            if j < i {
                assert(next[j] == so_far[j]);
            }
        }
        i += 1;
    }
    assert(basic_block@.take(n as int) =~= basic_block@);
    Ok(())
}

} // verus!
