//! The structured-control-flow target: the instructions the code generator
//! emits, as executable values and as their mathematical model.

use vstd::prelude::*;

verus! {

/// Model of one target instruction.
///
/// `Block` and `Loop` open a scope without a result value and `End` closes the
/// innermost open scope (or the function body). A branch names an enclosing
/// scope by its depth, 0 being the innermost.
pub enum Instr {
    Unreachable,
    Block,
    Loop,
    End,
    Br(u32),
    /// Branch by table: the operand selects an entry of the table, or the
    /// default depth where it lies beyond the table.
    BrTable(Seq<u32>, u32),
    Return,
    Call(u32),
    Select,
    GetLocal(u32),
    SetLocal(u32),
    I32Const(i32),
    I64Const(i64),
    I64Eq,
    I64Ne,
    I64Add,
    I64ExtendSI32,
}

impl Instr {
    /// Whether the instruction opens or closes a scope.
    pub open spec fn is_structural(self) -> bool {
        self is Block || self is Loop || self is End
    }
}

/// One target instruction as the code generator holds it.
#[derive(Debug, PartialEq, Eq)]
pub enum WasmOp {
    Unreachable,
    Block,
    Loop,
    End,
    Br(u32),
    BrTable(Vec<u32>, u32),
    Return,
    Call(u32),
    Select,
    GetLocal(u32),
    SetLocal(u32),
    I32Const(i32),
    I64Const(i64),
    I64Eq,
    I64Ne,
    I64Add,
    I64ExtendSI32,
}

impl View for WasmOp {
    type V = Instr;

    open spec fn view(&self) -> Instr {
        match *self {
            WasmOp::Unreachable => Instr::Unreachable,
            WasmOp::Block => Instr::Block,
            WasmOp::Loop => Instr::Loop,
            WasmOp::End => Instr::End,
            WasmOp::Br(depth) => Instr::Br(depth),
            WasmOp::BrTable(table, default) => Instr::BrTable(table@, default),
            WasmOp::Return => Instr::Return,
            WasmOp::Call(index) => Instr::Call(index),
            WasmOp::Select => Instr::Select,
            WasmOp::GetLocal(slot) => Instr::GetLocal(slot),
            WasmOp::SetLocal(slot) => Instr::SetLocal(slot),
            WasmOp::I32Const(value) => Instr::I32Const(value),
            WasmOp::I64Const(value) => Instr::I64Const(value),
            WasmOp::I64Eq => Instr::I64Eq,
            WasmOp::I64Ne => Instr::I64Ne,
            WasmOp::I64Add => Instr::I64Add,
            WasmOp::I64ExtendSI32 => Instr::I64ExtendSI32,
        }
    }
}

/// A structured program: plain instructions and nested scopes. This is the
/// shape in which the target gives its instructions a meaning; `flatten` is the
/// instruction sequence that is written out for it.
pub enum Node {
    /// An instruction that neither opens nor closes a scope.
    Plain(Instr),
    /// A scope whose label lies at its end.
    Block(Seq<Node>),
    /// A scope whose label lies at its start.
    Loop(Seq<Node>),
}

/// The nodes that stand for a run of plain instructions.
pub open spec fn plain(code: Seq<Instr>) -> Seq<Node> {
    Seq::new(code.len(), |i: int| Node::Plain(code[i]))
}

/// The instruction sequence of a structured program: each scope is written as
/// its opening instruction, its body and `End`.
pub open spec fn flatten(nodes: Seq<Node>) -> Seq<Instr>
    decreases nodes,
{
    if nodes.len() == 0 {
        Seq::empty()
    } else {
        let head = match nodes[0] {
            Node::Plain(instr) => seq![instr],
            Node::Block(body) => seq![Instr::Block] + flatten(body) + seq![Instr::End],
            Node::Loop(body) => seq![Instr::Loop] + flatten(body) + seq![Instr::End],
        };
        head + flatten(nodes.skip(1))
    }
}

/// The instruction sequence that a sequence of executable instructions stands for.
pub open spec fn code_of(ops: Seq<WasmOp>) -> Seq<Instr> {
    Seq::new(ops.len(), |i: int| ops[i]@)
}

/// Appends one instruction.
pub fn emit(opcodes: &mut Vec<WasmOp>, op: WasmOp)
    ensures
        final(opcodes)@ == old(opcodes)@.push(op),
        code_of(final(opcodes)@) == code_of(old(opcodes)@).push(op@),
{
    opcodes.push(op);
    assert(code_of(opcodes@) =~= code_of(old(opcodes)@).push(op@));
}

} // verus!
