//! The register bytecode that the code generator takes as input.
//!
//! A function is a dense sequence of basic blocks; a block's position in that
//! sequence is its id, which is what a branch names as its target. Each block
//! is a sequence of operations over sixteen 64-bit value registers, of which
//! register 0 is the accumulator that arithmetic and comparisons write to.

use vstd::prelude::*;

verus! {

/// Number of value registers of the bytecode machine.
pub const REGISTER_COUNT: usize = 16;

/// The register that arithmetic and comparison operations write their result to,
/// and that a conditional branch reads.
pub const ACCUMULATOR: usize = 0;

/// One bytecode operation. Register operands are register numbers, branch
/// operands are block ids, global operands are host global indices.
#[derive(Clone, Copy, Debug, PartialEq, Eq, Structural)]
pub enum OpCode {
    /// Leave the function.
    Return,
    /// Continue at the given block.
    Branch(usize),
    /// Continue at the first block if the accumulator is non-zero, at the
    /// second block otherwise.
    ConditionalBranch(usize, usize),
    SIAdd(usize, usize),
    SISub(usize, usize),
    SIMul(usize, usize),
    SIDiv(usize, usize),
    SIMod(usize, usize),
    UIAdd(usize, usize),
    UISub(usize, usize),
    UIMul(usize, usize),
    UIDiv(usize, usize),
    UIMod(usize, usize),
    FAdd(usize, usize),
    FSub(usize, usize),
    FMul(usize, usize),
    FDiv(usize, usize),
    FMod(usize, usize),
    Shl(usize, usize),
    Shr(usize, usize),
    BitAnd(usize, usize),
    BitOr(usize, usize),
    Xor(usize, usize),
    LogicalNot(usize),
    BitNot(usize),
    SILt(usize, usize),
    SILe(usize, usize),
    SIGe(usize, usize),
    SIGt(usize, usize),
    UILt(usize, usize),
    UILe(usize, usize),
    UIGe(usize, usize),
    UIGt(usize, usize),
    FLt(usize, usize),
    FLe(usize, usize),
    FGe(usize, usize),
    FGt(usize, usize),
    /// Accumulator becomes 1 if the two registers are equal, 0 otherwise.
    Eq(usize, usize),
    Ne(usize, usize),
    SIConst8(usize, i8),
    SIConst16(usize, i16),
    SIConst32(usize, i32),
    /// Register (first operand) becomes the constant.
    SIConst64(usize, i64),
    UIConst8(usize, u8),
    UIConst16(usize, u16),
    UIConst32(usize, u32),
    UIConst64(usize, u64),
    /// The constant is carried as the bit pattern of the 64-bit float.
    FConst64(usize, u64),
    Load8(usize, usize),
    Load16(usize, usize),
    Load32(usize, usize),
    Load64(usize, usize),
    Store8(usize, usize),
    Store16(usize, usize),
    Store32(usize, usize),
    Store64(usize, usize),
    Mov(usize, usize),
    /// Register (first operand) becomes the host global (second operand).
    LoadGlobal(usize, usize),
    /// Host global (first operand) becomes the register (second operand).
    StoreGlobal(usize, usize),
    Call(usize),
    CallIndirect(usize),
    CallNative(usize),
    CallNativeIndirect(usize),
}

impl OpCode {
    /// Whether the operation ends its basic block by naming the next block.
    pub open spec fn is_branch(self) -> bool {
        self is Branch || self is ConditionalBranch
    }

    /// Whether the operation transfers control: a return or a branch.
    pub open spec fn is_terminator(self) -> bool {
        self is Return || self.is_branch()
    }
}

/// A straight-line sequence of operations.
pub struct BasicBlock {
    pub opcodes: Vec<OpCode>,
}

impl View for BasicBlock {
    type V = Seq<OpCode>;

    open spec fn view(&self) -> Seq<OpCode> {
        self.opcodes@
    }
}

impl BasicBlock {
    pub fn from_opcodes(opcodes: Vec<OpCode>) -> (block: BasicBlock)
        ensures
            block@ == opcodes@,
    {
        BasicBlock { opcodes }
    }
}

/// A function: its basic blocks, entered at block 0.
pub struct Function {
    pub basic_blocks: Vec<BasicBlock>,
}

impl View for Function {
    type V = Seq<Seq<OpCode>>;

    open spec fn view(&self) -> Seq<Seq<OpCode>> {
        Seq::new(self.basic_blocks@.len(), |i: int| self.basic_blocks@[i]@)
    }
}

impl Function {
    pub fn from_basic_blocks(basic_blocks: Vec<BasicBlock>) -> (function: Function)
        ensures
            function.basic_blocks@ == basic_blocks@,
            function@.len() == basic_blocks@.len(),
            forall|i: int| 0 <= i < basic_blocks@.len() ==> function@[i] == basic_blocks@[i]@,
    {
        Function { basic_blocks }
    }
}

} // verus!
