//! What the compiler guarantees: compiled code does what the interpreter does.

use vstd::prelude::*;
use crate::bytecode::{OpCode, ACCUMULATOR, REGISTER_COUNT};
use crate::encoder::{
    all_supported, encode_ops, encoding, index_immediate, lemma_encode_ops_concat,
    slot_of, supported, WasmExecutorInfo, DISPATCH_SLOT,
};
use crate::interpreter::{unsigned32, unsigned64};
use crate::lowering::{
    block_body, dispatch_code, dispatch_nest, function_supported, identity_table, loop_depth,
    lowered_body, MAX_BLOCKS,
};
use crate::provider::host_imports;
use crate::semantics::{
    apply_op, execute, initial_locals, initial_registers, interpret, interpret_block,
    interpret_from, observed, run, step, wrapping_sum, BlockExit, Host, Machine, Outcome,
    Value,
};
use crate::target::{plain, Instr, Node};

verus! {

/// Straight-line code, run instruction by instruction.
pub open spec fn run_code(code: Seq<Instr>, info: WasmExecutorInfo, m: Machine) -> Outcome
    decreases code.len(),
{
    if code.len() == 0 {
        Outcome::Next(m)
    } else {
        match step(code[0], info, m) {
            Outcome::Next(m1) => run_code(code.skip(1), info, m1),
            other => other,
        }
    }
}

/// What follows an outcome: the continuation runs where the first part ran
/// to its end, and any other outcome stands.
pub open spec fn and_then_code(first: Outcome, code: Seq<Instr>, info: WasmExecutorInfo) -> Outcome {
    match first {
        Outcome::Next(m1) => run_code(code, info, m1),
        other => other,
    }
}

/// Running two pieces of straight-line code in a row is running the second
/// where the first left off.
pub proof fn lemma_run_code_concat(a: Seq<Instr>, b: Seq<Instr>, info: WasmExecutorInfo, m: Machine)
    ensures
        run_code(a + b, info, m) == and_then_code(run_code(a, info, m), b, info),
    decreases a.len(),
{
    if a.len() == 0 {
        assert(a + b =~= b);
    } else {
        assert((a + b)[0] == a[0]);
        assert((a + b).skip(1) =~= a.skip(1) + b);
        match step(a[0], info, m) {
            Outcome::Next(m1) => {
                lemma_run_code_concat(a.skip(1), b, info, m1);
            },
            _ => {},
        }
    }
}

/// A run of plain instructions means the same as a structured program as it
/// does as straight-line code, whatever the fuel.
pub proof fn lemma_run_plain(code: Seq<Instr>, info: WasmExecutorInfo, m: Machine, fuel: nat)
    ensures
        run(plain(code), info, m, fuel) == run_code(code, info, m),
    decreases code.len(),
{
    if code.len() > 0 {
        assert(plain(code)[0] == Node::Plain(code[0]));
        assert(plain(code).skip(1) =~= plain(code.skip(1)));
        match step(code[0], info, m) {
            Outcome::Next(m1) => {
                lemma_run_plain(code.skip(1), info, m1, fuel);
            },
            _ => {},
        }
    }
}

/// The locals that hold the given registers.
pub open spec fn register_values(regs: Seq<u64>) -> Seq<Value> {
    Seq::new(regs.len(), |i: int| Value::I64(regs[i]))
}

/// The machine whose dispatch register and value registers hold the given
/// values.
pub open spec fn machine_of(dispatch: i32, regs: Seq<u64>, stack: Seq<Value>, host: Host) -> Machine {
    Machine { locals: seq![Value::I32(dispatch)] + register_values(regs), stack, host }
}

/// Reading a value register pushes its value.
proof fn lemma_get_register(
    r: usize,
    info: WasmExecutorInfo,
    dispatch: i32,
    regs: Seq<u64>,
    stack: Seq<Value>,
    host: Host,
)
    requires
        regs.len() == REGISTER_COUNT,
        r < REGISTER_COUNT,
    ensures
        step(Instr::GetLocal(slot_of(r)), info, machine_of(dispatch, regs, stack, host))
            == Outcome::Next(
            machine_of(dispatch, regs, stack.push(Value::I64(regs[r as int])), host),
        ),
{
}

/// Writing a value register takes the value off the stack.
proof fn lemma_set_register(
    r: usize,
    value: u64,
    info: WasmExecutorInfo,
    dispatch: i32,
    regs: Seq<u64>,
    stack: Seq<Value>,
    host: Host,
)
    requires
        regs.len() == REGISTER_COUNT,
        r < REGISTER_COUNT,
    ensures
        step(
            Instr::SetLocal(slot_of(r)),
            info,
            machine_of(dispatch, regs, stack.push(Value::I64(value)), host),
        ) == Outcome::Next(machine_of(dispatch, regs.update(r as int, value), stack, host)),
{
    let before = machine_of(dispatch, regs, stack.push(Value::I64(value)), host);
    let after = machine_of(dispatch, regs.update(r as int, value), stack, host);
    assert(before.locals.update(slot_of(r) as int, Value::I64(value)) =~= after.locals);
    assert(before.stack.take(before.stack.len() - 1) =~= stack);
}

/// Writing the dispatch register takes the value off the stack and changes
/// no value register.
proof fn lemma_set_dispatch(
    value: i32,
    info: WasmExecutorInfo,
    dispatch: i32,
    regs: Seq<u64>,
    stack: Seq<Value>,
    host: Host,
)
    ensures
        step(
            Instr::SetLocal(DISPATCH_SLOT),
            info,
            machine_of(dispatch, regs, stack.push(Value::I32(value)), host),
        ) == Outcome::Next(machine_of(value, regs, stack, host)),
{
    let before = machine_of(dispatch, regs, stack.push(Value::I32(value)), host);
    let after = machine_of(value, regs, stack, host);
    assert(before.locals.update(0, Value::I32(value)) =~= after.locals);
    assert(before.stack.take(before.stack.len() - 1) =~= stack);
}

/// Code that begins with one instruction runs that instruction first.
proof fn lemma_run_code_first(first: Instr, rest: Seq<Instr>, info: WasmExecutorInfo, m: Machine)
    ensures
        run_code(seq![first] + rest, info, m) == and_then_code(step(first, info, m), rest, info),
{
    assert((seq![first] + rest).skip(1) =~= rest);
}

/// Whether the encoding of the operation does to the machine what the
/// operation does to the registers and the host, and traps where the
/// operation faults.
pub open spec fn straight_line_simulated(
    op: OpCode,
    info: WasmExecutorInfo,
    dispatch: i32,
    regs: Seq<u64>,
    stack: Seq<Value>,
    host: Host,
) -> bool {
    run_code(encoding(op, info), info, machine_of(dispatch, regs, stack, host)) == match apply_op(
        op,
        regs,
        host,
    ) {
        Some((regs1, host1)) => Outcome::Next(machine_of(dispatch, regs1, stack, host1)),
        None => Outcome::Trap(host),
    }
}

#[verifier::rlimit(50)]
proof fn lemma_op_add(
    a: usize,
    b: usize,
    info: WasmExecutorInfo,
    dispatch: i32,
    regs: Seq<u64>,
    stack: Seq<Value>,
    host: Host,
)
    requires
        regs.len() == REGISTER_COUNT,
        supported(OpCode::SIAdd(a, b), info),
        info.store_global_fn != info.load_global_fn,
    ensures
        straight_line_simulated(OpCode::SIAdd(a, b), info, dispatch, regs, stack, host),
{
    let op = OpCode::SIAdd(a, b);
    let m = machine_of(dispatch, regs, stack, host);
    let none = Seq::<Instr>::empty();
    let x = regs[a as int];
    let y = regs[b as int];
    let s1 = stack.push(Value::I64(x));
    let s2 = s1.push(Value::I64(y));
    let s3 = stack.push(Value::I64(wrapping_sum(x, y)));
    let i0 = Instr::GetLocal(slot_of(a));
    let i1 = Instr::GetLocal(slot_of(b));
    let i2 = Instr::I64Add;
    let i3 = Instr::SetLocal(slot_of(ACCUMULATOR));
    assert(encoding(op, info) =~= seq![i0] + (seq![i1] + (seq![i2] + (seq![i3] + none))));
    lemma_run_code_first(i0, seq![i1] + (seq![i2] + (seq![i3] + none)), info, m);
    lemma_get_register(a, info, dispatch, regs, stack, host);
    lemma_run_code_first(i1, seq![i2] + (seq![i3] + none), info, machine_of(dispatch, regs, s1, host));
    lemma_get_register(b, info, dispatch, regs, s1, host);
    lemma_run_code_first(i2, seq![i3] + none, info, machine_of(dispatch, regs, s2, host));
    assert(s2.take(s2.len() - 2) =~= stack);
    assert(step(i2, info, machine_of(dispatch, regs, s2, host)) == Outcome::Next(
        machine_of(dispatch, regs, s3, host),
    ));
    lemma_run_code_first(i3, none, info, machine_of(dispatch, regs, s3, host));
    lemma_set_register(ACCUMULATOR, wrapping_sum(x, y), info, dispatch, regs, stack, host);
}

#[verifier::rlimit(50)]
proof fn lemma_op_equal(
    a: usize,
    b: usize,
    info: WasmExecutorInfo,
    dispatch: i32,
    regs: Seq<u64>,
    stack: Seq<Value>,
    host: Host,
)
    requires
        regs.len() == REGISTER_COUNT,
        supported(OpCode::Eq(a, b), info),
        info.store_global_fn != info.load_global_fn,
    ensures
        straight_line_simulated(OpCode::Eq(a, b), info, dispatch, regs, stack, host),
{
    let op = OpCode::Eq(a, b);
    let m = machine_of(dispatch, regs, stack, host);
    let none = Seq::<Instr>::empty();
    let x = regs[a as int];
    let y = regs[b as int];
    let flag = if x == y {
        1i32
    } else {
        0i32
    };
    let wide = if x == y {
        1u64
    } else {
        0u64
    };
    let s1 = stack.push(Value::I64(x));
    let s2 = s1.push(Value::I64(y));
    let s3 = stack.push(Value::I32(flag));
    let s4 = stack.push(Value::I64(wide));
    let i0 = Instr::GetLocal(slot_of(a));
    let i1 = Instr::GetLocal(slot_of(b));
    let i2 = Instr::I64Eq;
    let i3 = Instr::I64ExtendSI32;
    let i4 = Instr::SetLocal(slot_of(ACCUMULATOR));
    let t1 = seq![i1] + (seq![i2] + (seq![i3] + (seq![i4] + none)));
    let t2 = seq![i2] + (seq![i3] + (seq![i4] + none));
    let t3 = seq![i3] + (seq![i4] + none);
    let t4 = seq![i4] + none;
    assert(encoding(op, info) =~= seq![i0] + t1);
    lemma_run_code_first(i0, t1, info, m);
    lemma_get_register(a, info, dispatch, regs, stack, host);
    lemma_run_code_first(i1, t2, info, machine_of(dispatch, regs, s1, host));
    lemma_get_register(b, info, dispatch, regs, s1, host);
    lemma_run_code_first(i2, t3, info, machine_of(dispatch, regs, s2, host));
    assert(s2.take(s2.len() - 2) =~= stack);
    assert(step(i2, info, machine_of(dispatch, regs, s2, host)) == Outcome::Next(
        machine_of(dispatch, regs, s3, host),
    ));
    lemma_run_code_first(i3, t4, info, machine_of(dispatch, regs, s3, host));
    assert(s3.take(s3.len() - 1) =~= stack);
    assert(unsigned64(flag as i64) == wide);
    assert(step(i3, info, machine_of(dispatch, regs, s3, host)) == Outcome::Next(
        machine_of(dispatch, regs, s4, host),
    ));
    lemma_run_code_first(i4, none, info, machine_of(dispatch, regs, s4, host));
    lemma_set_register(ACCUMULATOR, wide, info, dispatch, regs, stack, host);
}

proof fn lemma_op_constant(
    reg: usize,
    value: i64,
    info: WasmExecutorInfo,
    dispatch: i32,
    regs: Seq<u64>,
    stack: Seq<Value>,
    host: Host,
)
    requires
        regs.len() == REGISTER_COUNT,
        supported(OpCode::SIConst64(reg, value), info),
        info.store_global_fn != info.load_global_fn,
    ensures
        straight_line_simulated(OpCode::SIConst64(reg, value), info, dispatch, regs, stack, host),
{
    let op = OpCode::SIConst64(reg, value);
    let m = machine_of(dispatch, regs, stack, host);
    let none = Seq::<Instr>::empty();
    let s1 = stack.push(Value::I64(unsigned64(value)));
    let i0 = Instr::I64Const(value);
    let i1 = Instr::SetLocal(slot_of(reg));
    assert(encoding(op, info) =~= seq![i0] + (seq![i1] + none));
    lemma_run_code_first(i0, seq![i1] + none, info, m);
    assert(step(i0, info, m) == Outcome::Next(machine_of(dispatch, regs, s1, host)));
    lemma_run_code_first(i1, none, info, machine_of(dispatch, regs, s1, host));
    lemma_set_register(reg, unsigned64(value), info, dispatch, regs, stack, host);
}

#[verifier::rlimit(50)]
proof fn lemma_op_load_global(
    dst: usize,
    src: usize,
    info: WasmExecutorInfo,
    dispatch: i32,
    regs: Seq<u64>,
    stack: Seq<Value>,
    host: Host,
)
    requires
        regs.len() == REGISTER_COUNT,
        supported(OpCode::LoadGlobal(dst, src), info),
        info.store_global_fn != info.load_global_fn,
    ensures
        straight_line_simulated(OpCode::LoadGlobal(dst, src), info, dispatch, regs, stack, host),
{
    let op = OpCode::LoadGlobal(dst, src);
    let m = machine_of(dispatch, regs, stack, host);
    let none = Seq::<Instr>::empty();
    let s1 = stack.push(Value::I32(index_immediate(src as int)));
    let i0 = Instr::I32Const(index_immediate(src as int));
    let i1 = Instr::Call(info.load_global_fn);
    let i2 = Instr::SetLocal(slot_of(dst));
    assert(encoding(op, info) =~= seq![i0] + (seq![i1] + (seq![i2] + none)));
    lemma_run_code_first(i0, seq![i1] + (seq![i2] + none), info, m);
    assert(step(i0, info, m) == Outcome::Next(machine_of(dispatch, regs, s1, host)));
    lemma_run_code_first(i1, seq![i2] + none, info, machine_of(dispatch, regs, s1, host));
    lemma_immediate_round_trip(src as int);
    assert(s1.take(s1.len() - 1) =~= stack);
    if host.has_global(src as int) {
        let s2 = stack.push(Value::I64(host.globals[src as int]));
        assert(step(i1, info, machine_of(dispatch, regs, s1, host)) == Outcome::Next(
            machine_of(dispatch, regs, s2, host),
        ));
        lemma_run_code_first(i2, none, info, machine_of(dispatch, regs, s2, host));
        lemma_set_register(dst, host.globals[src as int], info, dispatch, regs, stack, host);
    } else {
        assert(step(i1, info, machine_of(dispatch, regs, s1, host)) == Outcome::Trap(host));
    }
}

#[verifier::rlimit(50)]
proof fn lemma_op_store_global(
    dst: usize,
    src: usize,
    info: WasmExecutorInfo,
    dispatch: i32,
    regs: Seq<u64>,
    stack: Seq<Value>,
    host: Host,
)
    requires
        regs.len() == REGISTER_COUNT,
        supported(OpCode::StoreGlobal(dst, src), info),
        info.store_global_fn != info.load_global_fn,
    ensures
        straight_line_simulated(OpCode::StoreGlobal(dst, src), info, dispatch, regs, stack, host),
{
    let op = OpCode::StoreGlobal(dst, src);
    let m = machine_of(dispatch, regs, stack, host);
    let none = Seq::<Instr>::empty();
    let s1 = stack.push(Value::I32(index_immediate(dst as int)));
    let s2 = s1.push(Value::I64(regs[src as int]));
    let i0 = Instr::I32Const(index_immediate(dst as int));
    let i1 = Instr::GetLocal(slot_of(src));
    let i2 = Instr::Call(info.store_global_fn);
    assert(encoding(op, info) =~= seq![i0] + (seq![i1] + (seq![i2] + none)));
    lemma_run_code_first(i0, seq![i1] + (seq![i2] + none), info, m);
    assert(step(i0, info, m) == Outcome::Next(machine_of(dispatch, regs, s1, host)));
    lemma_run_code_first(i1, seq![i2] + none, info, machine_of(dispatch, regs, s1, host));
    lemma_get_register(src, info, dispatch, regs, s1, host);
    lemma_run_code_first(i2, none, info, machine_of(dispatch, regs, s2, host));
    lemma_immediate_round_trip(dst as int);
    assert(s2.take(s2.len() - 2) =~= stack);
    if host.has_global(dst as int) {
        assert(step(i2, info, machine_of(dispatch, regs, s2, host)) == Outcome::Next(
            machine_of(dispatch, regs, stack, host.store(dst as u32, regs[src as int])),
        ));
    } else {
        assert(step(i2, info, machine_of(dispatch, regs, s2, host)) == Outcome::Trap(host));
    }
}

/// The encoding of a straight-line operation does to the machine what the
/// operation does to the registers and the host, and traps where the
/// operation faults.
pub proof fn lemma_straight_line_op(
    op: OpCode,
    info: WasmExecutorInfo,
    dispatch: i32,
    regs: Seq<u64>,
    stack: Seq<Value>,
    host: Host,
)
    requires
        regs.len() == REGISTER_COUNT,
        supported(op, info),
        !op.is_terminator(),
        info.store_global_fn != info.load_global_fn,
    ensures
        straight_line_simulated(op, info, dispatch, regs, stack, host),
{
    match op {
        OpCode::SIAdd(a, b) => {
            lemma_op_add(a, b, info, dispatch, regs, stack, host);
        },
        OpCode::Eq(a, b) => {
            lemma_op_equal(a, b, info, dispatch, regs, stack, host);
        },
        OpCode::SIConst64(reg, value) => {
            lemma_op_constant(reg, value, info, dispatch, regs, stack, host);
        },
        OpCode::LoadGlobal(dst, src) => {
            lemma_op_load_global(dst, src, info, dispatch, regs, stack, host);
        },
        OpCode::StoreGlobal(dst, src) => {
            lemma_op_store_global(dst, src, info, dispatch, regs, stack, host);
        },
        _ => {},
    }
}

/// A block id or global index that fits 32 bits is read back from its
/// immediate as it was.
pub proof fn lemma_immediate_round_trip(index: int)
    requires
        0 <= index <= u32::MAX,
    ensures
        unsigned32(index_immediate(index)) == index,
{
}

/// The encoding of a branch writes the id of its target to the dispatch
/// register and changes nothing else: no other local, not the operand stack,
/// not the host.
pub proof fn law_branch_writes_only_dispatch(target: usize, info: WasmExecutorInfo, m: Machine)
    requires
        target <= u32::MAX,
        m.locals.len() > 0,
    ensures
        run_code(encoding(OpCode::Branch(target), info), info, m) == Outcome::Next(
            Machine {
                locals: m.locals.update(
                    DISPATCH_SLOT as int,
                    Value::I32(index_immediate(target as int)),
                ),
                ..m
            },
        ),
        forall|slot: int|
            1 <= slot < m.locals.len() ==> m.locals.update(
                DISPATCH_SLOT as int,
                Value::I32(index_immediate(target as int)),
            )[slot] == m.locals[slot],
{
    let none = Seq::<Instr>::empty();
    let i0 = Instr::I32Const(index_immediate(target as int));
    let i1 = Instr::SetLocal(DISPATCH_SLOT);
    let m1 = Machine { stack: m.stack.push(Value::I32(index_immediate(target as int))), ..m };
    assert(encoding(OpCode::Branch(target), info) =~= seq![i0] + (seq![i1] + none));
    lemma_run_code_first(i0, seq![i1] + none, info, m);
    lemma_run_code_first(i1, none, info, m1);
    assert(m1.stack.take(m1.stack.len() - 1) =~= m.stack);
}

/// The encoding of a conditional branch writes to the dispatch register the
/// id of the first target where the accumulator is not zero and that of the
/// second target where it is, and changes nothing else.
#[verifier::rlimit(50)]
pub proof fn lemma_conditional_branch(
    if_true: usize,
    if_false: usize,
    info: WasmExecutorInfo,
    dispatch: i32,
    regs: Seq<u64>,
    stack: Seq<Value>,
    host: Host,
)
    requires
        regs.len() == REGISTER_COUNT,
        if_true <= u32::MAX,
        if_false <= u32::MAX,
    ensures
        run_code(
            encoding(OpCode::ConditionalBranch(if_true, if_false), info),
            info,
            machine_of(dispatch, regs, stack, host),
        ) == Outcome::Next(
            machine_of(
                index_immediate(
                    if regs[ACCUMULATOR as int] != 0 {
                        if_true as int
                    } else {
                        if_false as int
                    },
                ),
                regs,
                stack,
                host,
            ),
        ),
{
    let none = Seq::<Instr>::empty();
    let a = index_immediate(if_true as int);
    let b = index_immediate(if_false as int);
    let acc = regs[ACCUMULATOR as int];
    let flag = if acc != 0 {
        1i32
    } else {
        0i32
    };
    let chosen = if acc != 0 {
        a
    } else {
        b
    };
    let i0 = Instr::I32Const(a);
    let i1 = Instr::I32Const(b);
    let i2 = Instr::GetLocal(slot_of(ACCUMULATOR));
    let i3 = Instr::I64Const(0);
    let i4 = Instr::I64Ne;
    let i5 = Instr::Select;
    let i6 = Instr::SetLocal(DISPATCH_SLOT);
    let t6 = seq![i6] + none;
    let t5 = seq![i5] + t6;
    let t4 = seq![i4] + t5;
    let t3 = seq![i3] + t4;
    let t2 = seq![i2] + t3;
    let t1 = seq![i1] + t2;
    let s1 = stack.push(Value::I32(a));
    let s2 = s1.push(Value::I32(b));
    let s3 = s2.push(Value::I64(acc));
    let s4 = s3.push(Value::I64(0));
    let s5 = s2.push(Value::I32(flag));
    let s6 = stack.push(Value::I32(chosen));
    assert(encoding(OpCode::ConditionalBranch(if_true, if_false), info) =~= seq![i0] + t1);
    lemma_run_code_first(i0, t1, info, machine_of(dispatch, regs, stack, host));
    lemma_run_code_first(i1, t2, info, machine_of(dispatch, regs, s1, host));
    lemma_run_code_first(i2, t3, info, machine_of(dispatch, regs, s2, host));
    lemma_get_register(ACCUMULATOR, info, dispatch, regs, s2, host);
    lemma_run_code_first(i3, t4, info, machine_of(dispatch, regs, s3, host));
    assert(unsigned64(0i64) == 0u64);
    lemma_run_code_first(i4, t5, info, machine_of(dispatch, regs, s4, host));
    assert(s4.take(s4.len() - 2) =~= s2);
    assert(step(i4, info, machine_of(dispatch, regs, s4, host)) == Outcome::Next(
        machine_of(dispatch, regs, s5, host),
    ));
    lemma_run_code_first(i5, t6, info, machine_of(dispatch, regs, s5, host));
    assert(s5.take(s5.len() - 3) =~= stack);
    assert(step(i5, info, machine_of(dispatch, regs, s5, host)) == Outcome::Next(
        machine_of(dispatch, regs, s6, host),
    ));
    lemma_run_code_first(i6, none, info, machine_of(dispatch, regs, s6, host));
    lemma_set_dispatch(chosen, info, dispatch, regs, stack, host);
}

/// The encoding of a sequence that begins with one operation is the encoding
/// of that operation followed by the encoding of the rest.
pub proof fn lemma_encode_ops_first(ops: Seq<OpCode>, info: WasmExecutorInfo)
    requires
        ops.len() > 0,
    ensures
        encode_ops(ops, info) == encoding(ops[0], info) + encode_ops(ops.skip(1), info),
{
    let first = seq![ops[0]];
    assert(first + ops.skip(1) =~= ops);
    lemma_encode_ops_concat(first, ops.skip(1), info);
    assert(first.drop_last() =~= Seq::<OpCode>::empty());
    assert(encode_ops(first, info) =~= encoding(ops[0], info)) by {
        reveal_with_fuel(encode_ops, 2);
    }
}

/// A block is well formed when its last operation, and no operation before
/// it, transfers control.
pub open spec fn well_formed_block(ops: Seq<OpCode>) -> bool {
    &&& ops.len() > 0
    &&& ops.last().is_terminator()
    &&& forall|i: int| 0 <= i < ops.len() - 1 ==> !(#[trigger] ops[i]).is_terminator()
}

/// Whether the code's outcome is what the interpreter's way out of a block
/// asks for: a return returns with the same host, a branch runs to the end
/// with the target in the dispatch register and the same registers and host,
/// and a fault is a trap with the same host.
pub open spec fn outcome_matches(
    outcome: Outcome,
    exit: BlockExit,
    stack: Seq<Value>,
) -> bool {
    match exit {
        BlockExit::Return(host1) => outcome matches Outcome::Returned(m1) && m1.host == host1,
        BlockExit::Redirect(target, regs1, host1) => {
            &&& target <= u32::MAX
            &&& regs1.len() == REGISTER_COUNT
            &&& outcome == Outcome::Next(
                machine_of(index_immediate(target as int), regs1, stack, host1),
            )
        },
        BlockExit::Fault(host1) => outcome == Outcome::Trap(host1),
    }
}

/// The code of a well-formed block does what the interpreter does on the block.
#[verifier::rlimit(50)]
pub proof fn lemma_block_simulation(
    ops: Seq<OpCode>,
    info: WasmExecutorInfo,
    dispatch: i32,
    regs: Seq<u64>,
    stack: Seq<Value>,
    host: Host,
)
    requires
        regs.len() == REGISTER_COUNT,
        all_supported(ops, info),
        well_formed_block(ops),
        info.store_global_fn != info.load_global_fn,
    ensures
        outcome_matches(
            run_code(encode_ops(ops, info), info, machine_of(dispatch, regs, stack, host)),
            interpret_block(ops, regs, host),
            stack,
        ),
    decreases ops.len(),
{
    let m = machine_of(dispatch, regs, stack, host);
    let op = ops[0];
    let rest = ops.skip(1);
    lemma_encode_ops_first(ops, info);
    lemma_run_code_concat(encoding(op, info), encode_ops(rest, info), info, m);
    assert(supported(op, info));
    if ops.len() == 1 {
        assert(op == ops.last());
        assert(encode_ops(rest, info) =~= Seq::<Instr>::empty());
        match op {
            OpCode::Return => {
                assert(encoding(op, info) =~= seq![Instr::Return] + Seq::<Instr>::empty());
                lemma_run_code_first(Instr::Return, Seq::<Instr>::empty(), info, m);
            },
            OpCode::Branch(target) => {
                law_branch_writes_only_dispatch(target, info, m);
                assert(m.locals.update(
                    DISPATCH_SLOT as int,
                    Value::I32(index_immediate(target as int)),
                ) =~= machine_of(index_immediate(target as int), regs, stack, host).locals);
            },
            OpCode::ConditionalBranch(if_true, if_false) => {
                lemma_conditional_branch(if_true, if_false, info, dispatch, regs, stack, host);
            },
            _ => {},
        }
    } else {
        assert(!op.is_terminator());
        lemma_straight_line_op(op, info, dispatch, regs, stack, host);
        match apply_op(op, regs, host) {
            Some((regs1, host1)) => {
                assert(regs1.len() == REGISTER_COUNT);
                assert(rest.last() == ops.last());
                assert forall|i: int| 0 <= i < rest.len() - 1 implies !(#[trigger] rest[i]).is_terminator() by {
                    assert(rest[i] == ops[i + 1]);
                }
                assert forall|i: int| 0 <= i < rest.len() implies supported(#[trigger] rest[i], info) by {
                    assert(rest[i] == ops[i + 1]);
                }
                lemma_block_simulation(rest, info, dispatch, regs1, stack, host1);
            },
            None => {},
        }
    }
}

/// A return stops the code at once: whatever operations follow it in the
/// block, they do not run, and what they would write is never seen.
pub proof fn law_return_halts(
    before: Seq<OpCode>,
    after: Seq<OpCode>,
    info: WasmExecutorInfo,
    m: Machine,
)
    ensures
        run_code(encode_ops(before + seq![OpCode::Return] + after, info), info, m) == run_code(
            encode_ops(before + seq![OpCode::Return], info),
            info,
            m,
        ),
        !(run_code(encode_ops(before + seq![OpCode::Return], info), info, m) is Next),
        run_code(encode_ops(before, info), info, m) matches Outcome::Next(m1) ==> run_code(
            encode_ops(before + seq![OpCode::Return], info),
            info,
            m,
        ) == Outcome::Returned(m1),
{
    let ret = seq![OpCode::Return];
    let code_before = encode_ops(before, info);
    let code_ret = seq![Instr::Return];
    lemma_encode_ops_concat(before + ret, after, info);
    lemma_encode_ops_concat(before, ret, info);
    lemma_encode_ops_first(ret, info);
    assert(encode_ops(ret.skip(1), info) =~= Seq::<Instr>::empty());
    assert(encode_ops(ret, info) =~= code_ret);
    lemma_run_code_concat(code_before + code_ret, encode_ops(after, info), info, m);
    lemma_run_code_concat(code_before, code_ret, info, m);
    assert(code_ret =~= seq![Instr::Return] + Seq::<Instr>::empty());
    match run_code(code_before, info, m) {
        Outcome::Next(m1) => {
            lemma_run_code_first(Instr::Return, Seq::<Instr>::empty(), info, m1);
        },
        _ => {},
    }
}

/// A program that ends in plain instructions runs those where the part
/// before them ran to its end.
pub proof fn lemma_run_then_plain(
    a: Seq<Node>,
    code: Seq<Instr>,
    info: WasmExecutorInfo,
    m: Machine,
    fuel: nat,
)
    ensures
        run(a + plain(code), info, m, fuel) == and_then_code(run(a, info, m, fuel), code, info),
    decreases fuel, a.len(),
{
    let b = plain(code);
    if a.len() == 0 {
        assert(a + b =~= b);
        lemma_run_plain(code, info, m, fuel);
    } else {
        let nodes = a + b;
        assert(nodes.len() > 0);
        assert(nodes[0] == a[0]);
        assert(nodes.skip(1) =~= a.skip(1) + b);
        match a[0] {
            Node::Plain(instr) => {
                match step(instr, info, m) {
                    Outcome::Next(m1) => {
                        lemma_run_then_plain(a.skip(1), code, info, m1, fuel);
                    },
                    _ => {},
                }
            },
            Node::Block(body) => {
                match run(body, info, m, fuel) {
                    Outcome::Next(m1) => {
                        lemma_run_then_plain(a.skip(1), code, info, m1, fuel);
                    },
                    Outcome::Branch(depth, m1) => {
                        if depth == 0 {
                            lemma_run_then_plain(
                                a.skip(1),
                                code,
                                info,
                                Machine { stack: m.stack, ..m1 },
                                fuel,
                            );
                        }
                    },
                    _ => {},
                }
            },
            Node::Loop(body) => {
                match run(body, info, m, fuel) {
                    Outcome::Next(m1) => {
                        lemma_run_then_plain(a.skip(1), code, info, m1, fuel);
                    },
                    Outcome::Branch(depth, m1) => {
                        if depth == 0 && fuel > 0 {
                            lemma_run_then_plain(
                                a,
                                code,
                                info,
                                Machine { stack: m.stack, ..m1 },
                                (fuel - 1) as nat,
                            );
                        }
                    },
                    _ => {},
                }
            },
        }
    }
}

/// What the outcome of a block's body comes to outside the block: a branch
/// to the block itself ends the block, with the operand stack as it was on
/// entry, and a branch further out has one scope less to leave.
pub open spec fn block_exit(body_outcome: Outcome, entry_stack: Seq<Value>) -> Outcome {
    match body_outcome {
        Outcome::Branch(depth, m1) => if depth == 0 {
            Outcome::Next(Machine { stack: entry_stack, ..m1 })
        } else {
            Outcome::Branch((depth - 1) as nat, m1)
        },
        other => other,
    }
}

/// A program that is one block.
pub proof fn lemma_run_block(body: Seq<Node>, info: WasmExecutorInfo, m: Machine, fuel: nat)
    ensures
        run(seq![Node::Block(body)], info, m, fuel) == block_exit(
            run(body, info, m, fuel),
            m.stack,
        ),
{
    let nodes = seq![Node::Block(body)];
    assert(nodes.skip(1) =~= Seq::<Node>::empty());
    assert(nodes[0] == Node::Block(body));
    reveal_with_fuel(run, 2);
}

/// The scope that the dispatch selects: that of the block whose id the
/// dispatch register holds, or scope `n` where it holds no block's id.
pub open spec fn selected(dispatch: i32, n: nat) -> nat {
    if unsigned32(dispatch) < n {
        unsigned32(dispatch) as nat
    } else {
        n
    }
}

/// What the outcome of a block's code comes to after the branch that follows
/// it: code that ran to its end leaves by that branch.
pub open spec fn leaving(code_outcome: Outcome, depth: nat) -> Outcome {
    match code_outcome {
        Outcome::Next(m1) => Outcome::Branch(depth, m1),
        other => other,
    }
}

/// What scope `k` of the nest comes to, seen from outside it.
pub open spec fn nest_outcome(
    f: Seq<Seq<OpCode>>,
    info: WasmExecutorInfo,
    k: nat,
    dispatch: i32,
    m: Machine,
) -> Outcome {
    let n = f.len();
    let chosen = selected(dispatch, n);
    if chosen > k {
        Outcome::Branch((chosen - k - 1) as nat, m)
    } else if chosen == k {
        Outcome::Next(m)
    } else {
        leaving(run_code(encode_ops(f[chosen as int], info), info, m), (n + 1 - k) as nat)
    }
}

/// The dispatch: it leaves the scope that the dispatch register selects and
/// leaves the machine as it found it.
proof fn lemma_dispatch(n: nat, info: WasmExecutorInfo, dispatch: i32, m: Machine)
    requires
        n <= MAX_BLOCKS,
        m.locals.len() > 0,
        m.locals[0] == Value::I32(dispatch),
    ensures
        run_code(dispatch_code(n), info, m) == Outcome::Branch(selected(dispatch, n), m),
{
    let none = Seq::<Instr>::empty();
    let i0 = Instr::GetLocal(DISPATCH_SLOT);
    let i1 = Instr::BrTable(identity_table(n), n as u32);
    let m1 = Machine { stack: m.stack.push(Value::I32(dispatch)), ..m };
    assert(dispatch_code(n) =~= seq![i0] + (seq![i1] + none));
    lemma_run_code_first(i0, seq![i1] + none, info, m);
    lemma_run_code_first(i1, none, info, m1);
    assert(m1.stack.take(m1.stack.len() - 1) =~= m.stack);
}

/// Scope `k` of the nest, run with a dispatch register that selects scope
/// `chosen`: where `chosen` lies further out, the branch of the dispatch is
/// still under way; where it is `k`, control arrives right behind scope `k`;
/// where it lies further in, the code of block `chosen` has run and its
/// branch to the loop is under way.
#[verifier::rlimit(50)]
proof fn lemma_nest(
    f: Seq<Seq<OpCode>>,
    info: WasmExecutorInfo,
    k: nat,
    dispatch: i32,
    m: Machine,
    fuel: nat,
)
    requires
        k <= f.len() <= MAX_BLOCKS,
        m.locals.len() > 0,
        m.locals[0] == Value::I32(dispatch),
        selected(dispatch, f.len()) < k ==> !(run_code(
            encode_ops(f[selected(dispatch, f.len()) as int], info),
            info,
            m,
        ) is Branch),
    ensures
        run(seq![dispatch_nest(f, info, k)], info, m, fuel) == nest_outcome(
            f,
            info,
            k,
            dispatch,
            m,
        ),
    decreases k,
{
    let n = f.len();
    let chosen = selected(dispatch, n);
    if k == 0 {
        let body = plain(dispatch_code(n));
        lemma_run_block(body, info, m, fuel);
        lemma_run_plain(dispatch_code(n), info, m, fuel);
        lemma_dispatch(n, info, dispatch, m);
        assert(Machine { stack: m.stack, ..m } == m);
    } else {
        let inner = seq![dispatch_nest(f, info, (k - 1) as nat)];
        let code = encode_ops(f[k - 1], info);
        let branch = seq![Instr::Br(loop_depth(n, (k - 1) as nat))];
        let tail = plain(block_body(f, info, k - 1));
        lemma_run_block(inner + tail, info, m, fuel);
        lemma_run_then_plain(inner, block_body(f, info, k - 1), info, m, fuel);
        lemma_nest(f, info, (k - 1) as nat, dispatch, m, fuel);
        let inner_outcome = nest_outcome(f, info, (k - 1) as nat, dispatch, m);
        assert(run(inner, info, m, fuel) == inner_outcome);
        if chosen == k - 1 {
            assert(inner_outcome == Outcome::Next(m));
            lemma_run_code_concat(code, branch, info, m);
            match run_code(code, info, m) {
                Outcome::Next(m1) => {
                    assert(branch =~= seq![Instr::Br(loop_depth(n, (k - 1) as nat))]
                        + Seq::<Instr>::empty());
                    lemma_run_code_first(
                        Instr::Br(loop_depth(n, (k - 1) as nat)),
                        Seq::<Instr>::empty(),
                        info,
                        m1,
                    );
                },
                _ => {},
            }
        } else if chosen > k - 1 {
            assert(Machine { stack: m.stack, ..m } == m);
        } else {
        }
    }
}

/// A program that is one loop.
pub open spec fn loop_exit(
    body: Seq<Node>,
    body_outcome: Outcome,
    info: WasmExecutorInfo,
    entry_stack: Seq<Value>,
    fuel: nat,
) -> Outcome {
    match body_outcome {
        Outcome::Branch(depth, m1) => if depth == 0 {
            if fuel == 0 {
                Outcome::OutOfFuel
            } else {
                run(
                    seq![Node::Loop(body)],
                    info,
                    Machine { stack: entry_stack, ..m1 },
                    (fuel - 1) as nat,
                )
            }
        } else {
            Outcome::Branch((depth - 1) as nat, m1)
        },
        other => other,
    }
}

pub proof fn lemma_run_loop(body: Seq<Node>, info: WasmExecutorInfo, m: Machine, fuel: nat)
    ensures
        run(seq![Node::Loop(body)], info, m, fuel) == loop_exit(
            body,
            run(body, info, m, fuel),
            info,
            m.stack,
            fuel,
        ),
{
    let nodes = seq![Node::Loop(body)];
    assert(nodes.skip(1) =~= Seq::<Node>::empty());
    assert(nodes[0] == Node::Loop(body));
    reveal_with_fuel(run, 2);
}

/// A dispatch register that names no block makes the compiled function trap
/// when the loop is entered, whatever the blocks hold: no block's code runs,
/// and the host is left as it was.
pub proof fn law_invalid_dispatch_traps(
    f: Seq<Seq<OpCode>>,
    info: WasmExecutorInfo,
    dispatch: i32,
    m: Machine,
    fuel: nat,
)
    requires
        f.len() <= MAX_BLOCKS,
        m.locals.len() > 0,
        m.locals[0] == Value::I32(dispatch),
        unsigned32(dispatch) >= f.len(),
    ensures
        run(lowered_body(f, info), info, m, fuel) == Outcome::Trap(m.host),
{
    let n = f.len();
    let nest = seq![dispatch_nest(f, info, n)];
    let trap = seq![Instr::Unreachable];
    let outer_body = nest + plain(trap);
    let loop_body = seq![Node::Block(outer_body)];
    lemma_run_loop(loop_body, info, m, fuel);
    lemma_run_block(outer_body, info, m, fuel);
    lemma_run_then_plain(nest, trap, info, m, fuel);
    lemma_nest(f, info, n, dispatch, m, fuel);
    assert(trap =~= seq![Instr::Unreachable] + Seq::<Instr>::empty());
    lemma_run_code_first(Instr::Unreachable, Seq::<Instr>::empty(), info, m);
}

/// A function is well formed when each of its blocks is.
pub open spec fn well_formed(f: Seq<Seq<OpCode>>) -> bool {
    forall|b: int| 0 <= b < f.len() ==> well_formed_block(#[trigger] f[b])
}

/// The compiled loop, entered with a block id in the dispatch register, ends
/// as the interpreter does that starts at that block with the same registers
/// and the same host.
#[verifier::rlimit(50)]
pub proof fn lemma_dispatch_loop(
    f: Seq<Seq<OpCode>>,
    info: WasmExecutorInfo,
    dispatch: i32,
    regs: Seq<u64>,
    host: Host,
    fuel: nat,
)
    requires
        f.len() <= MAX_BLOCKS,
        function_supported(f, info),
        well_formed(f),
        regs.len() == REGISTER_COUNT,
        info.store_global_fn != info.load_global_fn,
    ensures
        observed(
            run(
                lowered_body(f, info),
                info,
                machine_of(dispatch, regs, Seq::empty(), host),
                fuel,
            ),
        ) == interpret_from(f, unsigned32(dispatch) as int, regs, host, fuel),
    decreases fuel,
{
    let n = f.len();
    let empty = Seq::<Value>::empty();
    let m = machine_of(dispatch, regs, empty, host);
    let block = unsigned32(dispatch) as int;
    if block >= n {
        law_invalid_dispatch_traps(f, info, dispatch, m, fuel);
    } else {
        let nest = seq![dispatch_nest(f, info, n)];
        let trap = seq![Instr::Unreachable];
        let outer_body = nest + plain(trap);
        let loop_body = seq![Node::Block(outer_body)];
        let code = encode_ops(f[block], info);
        let code_outcome = run_code(code, info, m);
        assert(selected(dispatch, n) == block);
        assert(all_supported(f[block], info));
        assert(well_formed_block(f[block]));
        lemma_block_simulation(f[block], info, dispatch, regs, empty, host);
        lemma_run_loop(loop_body, info, m, fuel);
        lemma_run_block(outer_body, info, m, fuel);
        lemma_run_then_plain(nest, trap, info, m, fuel);
        lemma_nest(f, info, n, dispatch, m, fuel);
        assert(run(nest, info, m, fuel) == leaving(code_outcome, 1));
        match interpret_block(f[block], regs, host) {
            BlockExit::Return(host1) => {},
            BlockExit::Fault(host1) => {},
            BlockExit::Redirect(target, regs1, host1) => {
                let m1 = machine_of(index_immediate(target as int), regs1, empty, host1);
                assert(code_outcome == Outcome::Next(m1));
                assert(Machine { stack: m.stack, ..m1 } == m1);
                lemma_immediate_round_trip(target as int);
                if fuel > 0 {
                    lemma_dispatch_loop(
                        f,
                        info,
                        index_immediate(target as int),
                        regs1,
                        host1,
                        (fuel - 1) as nat,
                    );
                }
            },
        }
    }
}

/// Compiled code does what the interpreter does. For a function whose
/// operations can all be lowered and whose blocks are well formed, the
/// compiled body, run by the engine with any host and any fuel, ends as the
/// interpreter ends on the function with that host and that fuel: it returns
/// with the same globals after the same stores, or traps where the
/// interpreter faults, again with the same globals after the same stores, or
/// runs out of fuel where the interpreter does.
pub proof fn law_compiled_code_simulates_interpreter(f: Seq<Seq<OpCode>>, host: Host, fuel: nat)
    requires
        f.len() <= MAX_BLOCKS,
        function_supported(f, host_imports()),
        well_formed(f),
    ensures
        execute(lowered_body(f, host_imports()), host_imports(), host, fuel) == interpret(
            f,
            host,
            fuel,
        ),
{
    let info = host_imports();
    let start = Machine { locals: initial_locals(), stack: Seq::empty(), host };
    assert(start.locals =~= machine_of(0, initial_registers(), Seq::empty(), host).locals);
    lemma_dispatch_loop(f, info, 0, initial_registers(), host, fuel);
}

} // verus!
