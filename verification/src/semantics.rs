//! What programs mean: the bytecode as its interpreter runs it, and the
//! structured target code as its engine runs it.
//!
//! Both are given as mathematical functions from a host state and an amount of
//! fuel to the way the run ends. One unit of fuel pays for one transfer from a
//! basic block to the next, which in the target is one more round of a loop.

use vstd::prelude::*;
use crate::bytecode::{OpCode, ACCUMULATOR, REGISTER_COUNT};
use crate::encoder::WasmExecutorInfo;
use crate::interpreter::{unsigned32, unsigned64};
use crate::target::{Instr, Node};

verus! {

/// The host as compiled code and bytecode see it: its globals, and the stores
/// made to them so far.
pub struct Host {
    pub globals: Seq<u64>,
    pub stores: Seq<(u32, u64)>,
}

impl Host {
    pub open spec fn has_global(self, index: int) -> bool {
        0 <= index < self.globals.len()
    }

    /// The host after a store to one of its globals.
    pub open spec fn store(self, index: u32, value: u64) -> Host {
        Host {
            globals: self.globals.update(index as int, value),
            stores: self.stores.push((index, value)),
        }
    }
}

/// How a run ends.
pub enum Execution {
    /// The function returned; the host is left in this state.
    Finished(Host),
    /// The run was stopped by a fault; the host is left in this state.
    Trapped(Host),
    /// The fuel did not suffice.
    OutOfFuel,
    /// The program is not one that the engine accepts.
    Invalid,
}

/// The sum of two 64-bit values as the machines compute it.
pub open spec fn wrapping_sum(a: u64, b: u64) -> u64 {
    ((a + b) % 0x1_0000_0000_0000_0000) as u64
}

// ---------------------------------------------------------------------------
// The bytecode
// ---------------------------------------------------------------------------

/// How the interpreter leaves a basic block.
pub enum BlockExit {
    /// By a return.
    Return(Host),
    /// By a branch to the block of this id.
    Redirect(usize, Seq<u64>, Host),
    /// By a fault: a register or a global that does not exist, an operation
    /// outside the modeled set, or the end of the block without a terminator.
    /// The host is as the operations before the fault left it.
    Fault(Host),
}

/// The registers and the host after a straight-line operation, or `None`
/// where the operation faults.
pub open spec fn apply_op(op: OpCode, regs: Seq<u64>, host: Host) -> Option<(Seq<u64>, Host)> {
    match op {
        OpCode::SIAdd(a, b) => if a < REGISTER_COUNT && b < REGISTER_COUNT {
            Some((regs.update(ACCUMULATOR as int, wrapping_sum(regs[a as int], regs[b as int])), host))
        } else {
            None
        },
        OpCode::Eq(a, b) => if a < REGISTER_COUNT && b < REGISTER_COUNT {
            Some(
                (
                    regs.update(
                        ACCUMULATOR as int,
                        if regs[a as int] == regs[b as int] {
                            1u64
                        } else {
                            0u64
                        },
                    ),
                    host,
                ),
            )
        } else {
            None
        },
        OpCode::SIConst64(reg, value) => if reg < REGISTER_COUNT {
            Some((regs.update(reg as int, unsigned64(value)), host))
        } else {
            None
        },
        OpCode::LoadGlobal(dst, src) => if dst < REGISTER_COUNT && host.has_global(src as int) {
            Some((regs.update(dst as int, host.globals[src as int]), host))
        } else {
            None
        },
        OpCode::StoreGlobal(dst, src) => if src < REGISTER_COUNT && host.has_global(dst as int)
            && dst <= u32::MAX {
            Some((regs, host.store(dst as u32, regs[src as int])))
        } else {
            None
        },
        _ => None,
    }
}

/// The interpreter on the operations of a block, from the first on.
pub open spec fn interpret_block(ops: Seq<OpCode>, regs: Seq<u64>, host: Host) -> BlockExit
    decreases ops.len(),
{
    if ops.len() == 0 {
        BlockExit::Fault(host)
    } else {
        match ops[0] {
            OpCode::Return => BlockExit::Return(host),
            OpCode::Branch(target) => BlockExit::Redirect(target, regs, host),
            OpCode::ConditionalBranch(if_true, if_false) => BlockExit::Redirect(
                if regs[ACCUMULATOR as int] != 0 {
                    if_true
                } else {
                    if_false
                },
                regs,
                host,
            ),
            op => match apply_op(op, regs, host) {
                Some((regs1, host1)) => interpret_block(ops.skip(1), regs1, host1),
                None => BlockExit::Fault(host),
            },
        }
    }
}

/// The interpreter on a function, from the given block on.
pub open spec fn interpret_from(
    f: Seq<Seq<OpCode>>,
    block: int,
    regs: Seq<u64>,
    host: Host,
    fuel: nat,
) -> Execution
    decreases fuel,
{
    if !(0 <= block < f.len()) {
        Execution::Trapped(host)
    } else {
        match interpret_block(f[block], regs, host) {
            BlockExit::Return(host1) => Execution::Finished(host1),
            BlockExit::Redirect(target, regs1, host1) => if fuel == 0 {
                Execution::OutOfFuel
            } else {
                interpret_from(f, target as int, regs1, host1, (fuel - 1) as nat)
            },
            BlockExit::Fault(host1) => Execution::Trapped(host1),
        }
    }
}

/// The registers at the start of a call: all zero.
pub open spec fn initial_registers() -> Seq<u64> {
    Seq::new(REGISTER_COUNT as nat, |i: int| 0u64)
}

/// The interpreter on a function: block 0, entered with all registers zero.
pub open spec fn interpret(f: Seq<Seq<OpCode>>, host: Host, fuel: nat) -> Execution {
    interpret_from(f, 0, initial_registers(), host, fuel)
}

// ---------------------------------------------------------------------------
// The target
// ---------------------------------------------------------------------------

/// A value of the target machine. 64-bit values are kept by their bit pattern.
pub enum Value {
    I32(i32),
    I64(u64),
}

/// The state of a running function.
pub struct Machine {
    pub locals: Seq<Value>,
    pub stack: Seq<Value>,
    pub host: Host,
}

/// What running a piece of code comes to.
pub enum Outcome {
    /// The code ran to its end.
    Next(Machine),
    /// A branch to the enclosing scope of the given depth is under way.
    Branch(nat, Machine),
    /// The function returned.
    Returned(Machine),
    /// A trap; the host is left in this state.
    Trap(Host),
    /// The fuel did not suffice.
    OutOfFuel,
    /// The code asked for what validation rules out.
    Stuck,
}

/// One instruction that opens or closes no scope.
pub open spec fn step(instr: Instr, info: WasmExecutorInfo, m: Machine) -> Outcome {
    let n = m.stack.len() as int;
    match instr {
        Instr::Unreachable => Outcome::Trap(m.host),
        Instr::Br(depth) => Outcome::Branch(depth as nat, m),
        Instr::BrTable(table, default) => if n >= 1 && m.stack[n - 1] is I32 {
            let selector = unsigned32(m.stack[n - 1]->I32_0) as int;
            let depth = if selector < table.len() {
                table[selector]
            } else {
                default
            };
            Outcome::Branch(depth as nat, Machine { stack: m.stack.take(n - 1), ..m })
        } else {
            Outcome::Stuck
        },
        Instr::Return => Outcome::Returned(m),
        Instr::Call(function) => if function == info.store_global_fn {
            if n >= 2 && m.stack[n - 1] is I64 && m.stack[n - 2] is I32 {
                let index = unsigned32(m.stack[n - 2]->I32_0);
                if m.host.has_global(index as int) {
                    Outcome::Next(
                        Machine {
                            stack: m.stack.take(n - 2),
                            host: m.host.store(index, m.stack[n - 1]->I64_0),
                            ..m
                        },
                    )
                } else {
                    Outcome::Trap(m.host)
                }
            } else {
                Outcome::Stuck
            }
        } else if function == info.load_global_fn {
            if n >= 1 && m.stack[n - 1] is I32 {
                let index = unsigned32(m.stack[n - 1]->I32_0);
                if m.host.has_global(index as int) {
                    Outcome::Next(
                        Machine {
                            stack: m.stack.take(n - 1).push(Value::I64(m.host.globals[index as int])),
                            ..m
                        },
                    )
                } else {
                    Outcome::Trap(m.host)
                }
            } else {
                Outcome::Stuck
            }
        } else {
            Outcome::Stuck
        },
        Instr::Select => if n >= 3 && m.stack[n - 1] is I32 {
            let chosen = if m.stack[n - 1]->I32_0 != 0 {
                m.stack[n - 3]
            } else {
                m.stack[n - 2]
            };
            Outcome::Next(Machine { stack: m.stack.take(n - 3).push(chosen), ..m })
        } else {
            Outcome::Stuck
        },
        Instr::GetLocal(slot) => if slot < m.locals.len() {
            Outcome::Next(Machine { stack: m.stack.push(m.locals[slot as int]), ..m })
        } else {
            Outcome::Stuck
        },
        Instr::SetLocal(slot) => if n >= 1 && slot < m.locals.len() {
            Outcome::Next(
                Machine {
                    locals: m.locals.update(slot as int, m.stack[n - 1]),
                    stack: m.stack.take(n - 1),
                    ..m
                },
            )
        } else {
            Outcome::Stuck
        },
        Instr::I32Const(value) => Outcome::Next(
            Machine { stack: m.stack.push(Value::I32(value)), ..m },
        ),
        Instr::I64Const(value) => Outcome::Next(
            Machine { stack: m.stack.push(Value::I64(unsigned64(value))), ..m },
        ),
        Instr::I64Eq => if n >= 2 && m.stack[n - 1] is I64 && m.stack[n - 2] is I64 {
            let result = if m.stack[n - 2]->I64_0 == m.stack[n - 1]->I64_0 {
                1i32
            } else {
                0i32
            };
            Outcome::Next(Machine { stack: m.stack.take(n - 2).push(Value::I32(result)), ..m })
        } else {
            Outcome::Stuck
        },
        Instr::I64Ne => if n >= 2 && m.stack[n - 1] is I64 && m.stack[n - 2] is I64 {
            let result = if m.stack[n - 2]->I64_0 != m.stack[n - 1]->I64_0 {
                1i32
            } else {
                0i32
            };
            Outcome::Next(Machine { stack: m.stack.take(n - 2).push(Value::I32(result)), ..m })
        } else {
            Outcome::Stuck
        },
        Instr::I64Add => if n >= 2 && m.stack[n - 1] is I64 && m.stack[n - 2] is I64 {
            let result = wrapping_sum(m.stack[n - 2]->I64_0, m.stack[n - 1]->I64_0);
            Outcome::Next(Machine { stack: m.stack.take(n - 2).push(Value::I64(result)), ..m })
        } else {
            Outcome::Stuck
        },
        Instr::I64ExtendSI32 => if n >= 1 && m.stack[n - 1] is I32 {
            let result = unsigned64(m.stack[n - 1]->I32_0 as i64);
            Outcome::Next(Machine { stack: m.stack.take(n - 1).push(Value::I64(result)), ..m })
        } else {
            Outcome::Stuck
        },
        Instr::Block | Instr::Loop | Instr::End => Outcome::Stuck,
    }
}

/// A structured program, run from its first node on.
///
/// A branch of depth 0 that reaches a block ends the block; one that reaches
/// a loop starts the loop again, for one unit of fuel. Either way the operand
/// stack is cut back to what it was when the scope was entered. A branch of
/// greater depth leaves the scope with its depth lowered by one.
pub open spec fn run(nodes: Seq<Node>, info: WasmExecutorInfo, m: Machine, fuel: nat) -> Outcome
    decreases fuel, nodes,
{
    if nodes.len() == 0 {
        Outcome::Next(m)
    } else {
        let rest = nodes.skip(1);
        match nodes[0] {
            Node::Plain(instr) => match step(instr, info, m) {
                Outcome::Next(m1) => run(rest, info, m1, fuel),
                other => other,
            },
            Node::Block(body) => match run(body, info, m, fuel) {
                Outcome::Next(m1) => run(rest, info, m1, fuel),
                Outcome::Branch(depth, m1) => if depth == 0 {
                    run(rest, info, Machine { stack: m.stack, ..m1 }, fuel)
                } else {
                    Outcome::Branch((depth - 1) as nat, m1)
                },
                other => other,
            },
            Node::Loop(body) => match run(body, info, m, fuel) {
                Outcome::Next(m1) => run(rest, info, m1, fuel),
                Outcome::Branch(depth, m1) => if depth == 0 {
                    if fuel == 0 {
                        Outcome::OutOfFuel
                    } else {
                        run(nodes, info, Machine { stack: m.stack, ..m1 }, (fuel - 1) as nat)
                    }
                } else {
                    Outcome::Branch((depth - 1) as nat, m1)
                },
                other => other,
            },
        }
    }
}

/// The locals at the start of a call: the dispatch register and the value
/// registers, all zero.
pub open spec fn initial_locals() -> Seq<Value> {
    Seq::new(
        (REGISTER_COUNT + 1) as nat,
        |i: int|
            if i == 0 {
                Value::I32(0)
            } else {
                Value::I64(0)
            },
    )
}

/// How a run of a function body ends for the caller. Running off the end of
/// the body and branching to the body's own label both return.
pub open spec fn observed(outcome: Outcome) -> Execution {
    match outcome {
        Outcome::Next(m) => Execution::Finished(m.host),
        Outcome::Returned(m) => Execution::Finished(m.host),
        Outcome::Branch(depth, m) => if depth == 0 {
            Execution::Finished(m.host)
        } else {
            Execution::Invalid
        },
        Outcome::Trap(host) => Execution::Trapped(host),
        Outcome::OutOfFuel => Execution::OutOfFuel,
        Outcome::Stuck => Execution::Invalid,
    }
}

/// The engine on the body of a function, entered with all locals zero and an
/// empty operand stack.
pub open spec fn execute(body: Seq<Node>, info: WasmExecutorInfo, host: Host, fuel: nat) -> Execution {
    observed(run(body, info, Machine { locals: initial_locals(), stack: Seq::empty(), host }, fuel))
}

} // verus!
