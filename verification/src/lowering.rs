//! The control-flow lowering engine.
//!
//! A function's blocks may jump to one another freely; the target only knows
//! scopes and branches to the boundary of an enclosing scope. The lowering
//! wraps the blocks in one loop and a nest of scopes:
//!
//! ```text
//! loop
//!   block                      scope n + 1
//!     block                    scope n
//!       ...
//!         block                scope 0
//!           get_local 0        the dispatch register
//!           br_table 0 .. n-1, default n
//!         end
//!         code of block 0
//!         br                   to the loop
//!       end
//!       ...
//!       code of block n - 1
//!       br                     to the loop
//!     end
//!     unreachable
//!   end
//! end
//! ```
//!
//! Leaving scope `k` lands at the code of block `k`; leaving scope `n`, the
//! table's default, lands at `unreachable`. A block that branches writes the id
//! of its successor to the dispatch register; the branch after its code starts
//! the loop again, which dispatches on that id.

use vstd::prelude::*;
use crate::bytecode::{Function, OpCode};
use crate::encoder::{
    all_supported, compile_basic_block, encode_ops, first_unsupported, WasmExecutorInfo,
    DISPATCH_SLOT,
};
use crate::target::{code_of, emit, flatten, plain, Instr, Node, WasmOp};

verus! {

/// Largest number of basic blocks that a function may have. With more, the
/// scope openings and the branch table alone would exceed the size limit of
/// an artifact.
pub const MAX_BLOCKS: usize = 0x0fff_effd;

/// Why a function could not be compiled.
#[derive(Clone, Copy, Debug, PartialEq, Eq, Structural)]
pub enum CompileError {
    /// The operation at position `index` of block `block` cannot be lowered.
    UnsupportedInstruction { block: usize, index: usize },
    /// The function is too large for the 32-bit sizes of the artifact format.
    TooLarge,
    /// The binary encoder gave an error instead of an artifact.
    EncodingFailed,
}

/// The branch table of the dispatch: entry `i` leaves scope `i`.
pub open spec fn identity_table(n: nat) -> Seq<u32> {
    Seq::new(n, |i: int| i as u32)
}

/// `count` scope openings.
pub open spec fn scope_openers(count: nat) -> Seq<Instr> {
    Seq::new(count, |i: int| Instr::Block)
}

/// The dispatch at the innermost point of a function of `n` blocks: read the
/// dispatch register and leave the scope of that id, or scope `n` for an id
/// that names no block.
pub open spec fn dispatch_code(n: nat) -> Seq<Instr> {
    seq![Instr::GetLocal(DISPATCH_SLOT), Instr::BrTable(identity_table(n), n as u32)]
}

/// Depth of the loop as seen from the code of block `k`: the scopes
/// `k + 1 ..= n + 1` lie between that code and the loop.
pub open spec fn loop_depth(n: nat, k: nat) -> u32
    recommends
        k < n,
        n <= MAX_BLOCKS,
{
    (n + 1 - k) as u32
}

/// The code of block `k` with the branch that starts the loop again and the
/// end of the scope the code stands in.
pub open spec fn block_code(f: Seq<Seq<OpCode>>, info: WasmExecutorInfo, k: int) -> Seq<Instr>
    recommends
        0 <= k < f.len(),
{
    encode_ops(f[k], info) + seq![Instr::Br(loop_depth(f.len(), k as nat)), Instr::End]
}

/// The code of the first `count` blocks.
pub open spec fn blocks_code(f: Seq<Seq<OpCode>>, info: WasmExecutorInfo, count: nat) -> Seq<
    Instr,
>
    recommends
        count <= f.len(),
    decreases count,
{
    if count == 0 {
        Seq::empty()
    } else {
        blocks_code(f, info, (count - 1) as nat) + block_code(f, info, count - 1)
    }
}

/// The instruction sequence of the whole function body, up to and including
/// the `End` of the function.
pub open spec fn lowered_code(f: Seq<Seq<OpCode>>, info: WasmExecutorInfo) -> Seq<Instr> {
    seq![Instr::Loop] + scope_openers(f.len() + 2) + dispatch_code(f.len()) + seq![Instr::End]
        + blocks_code(f, info, f.len()) + seq![
        Instr::Unreachable,
        Instr::End,
        Instr::End,
        Instr::End,
    ]
}

/// Whether every operation of the function can be lowered.
pub open spec fn function_supported(f: Seq<Seq<OpCode>>, info: WasmExecutorInfo) -> bool {
    forall|b: int| 0 <= b < f.len() ==> all_supported(#[trigger] f[b], info)
}

/// Whether `(block, index)` is the place of the first operation, in program
/// order, that cannot be lowered.
pub open spec fn first_unsupported_in(
    f: Seq<Seq<OpCode>>,
    info: WasmExecutorInfo,
    block: int,
    index: int,
) -> bool {
    &&& 0 <= block < f.len()
    &&& forall|b: int| 0 <= b < block ==> all_supported(#[trigger] f[b], info)
    &&& first_unsupported(f[block], info, index)
}

/// What lowering a function yields: the code of a function whose operations
/// can all be lowered, and otherwise the error that says why there is none.
pub open spec fn lowering_of(
    f: Seq<Seq<OpCode>>,
    info: WasmExecutorInfo,
    result: Result<Seq<Instr>, CompileError>,
) -> bool {
    match result {
        Ok(code) => {
            &&& f.len() <= MAX_BLOCKS
            &&& function_supported(f, info)
            &&& code == lowered_code(f, info)
        },
        Err(CompileError::TooLarge) => f.len() > MAX_BLOCKS,
        Err(CompileError::UnsupportedInstruction { block, index }) => {
            &&& f.len() <= MAX_BLOCKS
            &&& first_unsupported_in(f, info, block as int, index as int)
        },
        Err(CompileError::EncodingFailed) => false,
    }
}

/// The branch table with one entry per block.
fn dispatch_table(n: usize) -> (table: Vec<u32>)
    requires
        n <= MAX_BLOCKS,
    ensures
        table@ == identity_table(n as nat),
{
    let mut table: Vec<u32> = Vec::new();
    let mut i: usize = 0;
    while i < n
        invariant
            n <= MAX_BLOCKS,
            0 <= i <= n,
            table@ == identity_table(i as nat),
        decreases n - i,
    {
        table.push(i as u32);
        i += 1;
        assert(table@ =~= identity_table(i as nat));
    }
    table
}

/// Lowers a function to the instruction sequence of its body.
pub fn lower_function(f: &Function, info: &WasmExecutorInfo) -> (result: Result<
    Vec<WasmOp>,
    CompileError,
>)
    ensures
        lowering_of(
            f@,
            *info,
            match result {
                Ok(ops) => Ok(code_of(ops@)),
                Err(e) => Err(e),
            },
        ),
{
    let n = f.basic_blocks.len();
    if n > MAX_BLOCKS {
        return Err(CompileError::TooLarge);
    }
    let mut ops: Vec<WasmOp> = Vec::new();
    emit(&mut ops, WasmOp::Loop);
    // Number of scopes that are open at the point of emission; the loop is
    // the outermost of them.
    let mut open: u32 = 1;
    let mut i: usize = 0;
    assert(code_of(ops@) =~= seq![Instr::Loop] + scope_openers(0));
    while i < n + 2
        invariant
            n <= MAX_BLOCKS,
            0 <= i <= n + 2,
            open == i + 1,
            code_of(ops@) == seq![Instr::Loop] + scope_openers(i as nat),
        decreases n + 2 - i,
    {
        emit(&mut ops, WasmOp::Block);
        open += 1;
        i += 1;
        assert(code_of(ops@) =~= seq![Instr::Loop] + scope_openers(i as nat));
    }
    emit(&mut ops, WasmOp::GetLocal(DISPATCH_SLOT));
    emit(&mut ops, WasmOp::BrTable(dispatch_table(n), n as u32));
    emit(&mut ops, WasmOp::End);
    open -= 1;
    let ghost head = seq![Instr::Loop] + scope_openers((n + 2) as nat) + dispatch_code(n as nat)
        + seq![Instr::End];
    assert(code_of(ops@) =~= head + blocks_code(f@, *info, 0));
    let mut k: usize = 0;
    while k < n
        invariant
            n == f@.len(),
            n == f.basic_blocks@.len(),
            n <= MAX_BLOCKS,
            0 <= k <= n,
            open == n + 2 - k,
            forall|b: int| 0 <= b < k ==> all_supported(#[trigger] f@[b], *info),
            code_of(ops@) == head + blocks_code(f@, *info, k as nat),
        decreases n - k,
    {
        let ghost before = code_of(ops@);
        assert(f@[k as int] == f.basic_blocks@[k as int]@);
        match compile_basic_block(&mut ops, &f.basic_blocks[k], info) {
            Err(index) => {
                return Err(CompileError::UnsupportedInstruction { block: k, index });
            },
            Ok(()) => {},
        }
        emit(&mut ops, WasmOp::Br(open - 1));
        emit(&mut ops, WasmOp::End);
        open -= 1;
        assert(code_of(ops@) =~= before + block_code(f@, *info, k as int));
        k += 1;
        assert(code_of(ops@) =~= head + blocks_code(f@, *info, k as nat));
    }
    emit(&mut ops, WasmOp::Unreachable);
    emit(&mut ops, WasmOp::End);
    emit(&mut ops, WasmOp::End);
    emit(&mut ops, WasmOp::End);
    assert(code_of(ops@) =~= lowered_code(f@, *info));
    Ok(ops)
}

/// The code of block `k` with the branch that starts the loop again.
pub open spec fn block_body(f: Seq<Seq<OpCode>>, info: WasmExecutorInfo, k: int) -> Seq<Instr>
    recommends
        0 <= k < f.len(),
{
    encode_ops(f[k], info) + seq![Instr::Br(loop_depth(f.len(), k as nat))]
}

/// Scope `k` of the nest: scope 0 holds the dispatch; scope `k`, for `k` from
/// 1 to the number of blocks, holds scope `k - 1` and after it the code of
/// block `k - 1`.
pub open spec fn dispatch_nest(f: Seq<Seq<OpCode>>, info: WasmExecutorInfo, k: nat) -> Node
    recommends
        k <= f.len(),
    decreases k,
{
    if k == 0 {
        Node::Block(plain(dispatch_code(f.len())))
    } else {
        Node::Block(
            seq![dispatch_nest(f, info, (k - 1) as nat)] + plain(block_body(f, info, k - 1)),
        )
    }
}

/// The body of the compiled function as a structured program: the loop
/// around the outermost scope, which holds the nest and, after it, the trap
/// for a dispatch register that names no block.
pub open spec fn lowered_body(f: Seq<Seq<OpCode>>, info: WasmExecutorInfo) -> Seq<Node> {
    seq![
        Node::Loop(
            seq![
                Node::Block(
                    seq![dispatch_nest(f, info, f.len())] + plain(seq![Instr::Unreachable]),
                ),
            ],
        ),
    ]
}

/// Plain instructions are written out as they are.
pub proof fn lemma_flatten_plain(code: Seq<Instr>)
    ensures
        flatten(plain(code)) == code,
    decreases code.len(),
{
    if code.len() == 0 {
        assert(flatten(plain(code)) =~= code);
    } else {
        assert(plain(code).skip(1) =~= plain(code.skip(1)));
        lemma_flatten_plain(code.skip(1));
        assert(seq![code[0]] + code.skip(1) =~= code);
    }
}

/// Two programs in a row are written out one after the other.
pub proof fn lemma_flatten_concat(a: Seq<Node>, b: Seq<Node>)
    ensures
        flatten(a + b) == flatten(a) + flatten(b),
    decreases a.len(),
{
    if a.len() == 0 {
        assert(a + b =~= b);
        assert(flatten(a) + flatten(b) =~= flatten(b));
    } else {
        assert((a + b)[0] == a[0]);
        assert((a + b).skip(1) =~= a.skip(1) + b);
        lemma_flatten_concat(a.skip(1), b);
        assert(flatten(a + b) =~= flatten(a) + flatten(b));
    }
}

/// A block is written out as its opening, its body and its end.
pub proof fn lemma_flatten_block(body: Seq<Node>)
    ensures
        flatten(seq![Node::Block(body)]) == seq![Instr::Block] + flatten(body) + seq![Instr::End],
{
    let nodes = seq![Node::Block(body)];
    reveal_with_fuel(flatten, 2);
    assert(nodes.skip(1) =~= Seq::<Node>::empty());
    assert(flatten(nodes) =~= seq![Instr::Block] + flatten(body) + seq![Instr::End]);
}

/// Scope `k` of the nest is written out as `k + 1` openings, the dispatch,
/// the end of scope 0 and the code of the first `k` blocks, each with its
/// branch and the end of its scope.
pub proof fn lemma_nest_flat(f: Seq<Seq<OpCode>>, info: WasmExecutorInfo, k: nat)
    requires
        k <= f.len(),
    ensures
        flatten(seq![dispatch_nest(f, info, k)]) == scope_openers(k + 1) + dispatch_code(f.len())
            + seq![Instr::End] + blocks_code(f, info, k),
    decreases k,
{
    if k == 0 {
        let body = plain(dispatch_code(f.len()));
        lemma_flatten_block(body);
        lemma_flatten_plain(dispatch_code(f.len()));
        assert(scope_openers(1) =~= seq![Instr::Block]);
        assert(flatten(seq![dispatch_nest(f, info, k)]) =~= scope_openers(k + 1) + dispatch_code(
            f.len(),
        ) + seq![Instr::End] + blocks_code(f, info, k));
    } else {
        let inner = seq![dispatch_nest(f, info, (k - 1) as nat)];
        let body = inner + plain(block_body(f, info, k - 1));
        lemma_flatten_block(body);
        lemma_flatten_concat(inner, plain(block_body(f, info, k - 1)));
        lemma_flatten_plain(block_body(f, info, k - 1));
        lemma_nest_flat(f, info, (k - 1) as nat);
        assert(seq![Instr::Block] + scope_openers(k) =~= scope_openers(k + 1));
        assert(block_body(f, info, k - 1) + seq![Instr::End] =~= block_code(f, info, k - 1));
        assert(flatten(seq![dispatch_nest(f, info, k)]) =~= scope_openers(k + 1) + dispatch_code(
            f.len(),
        ) + seq![Instr::End] + blocks_code(f, info, k));
    }
}

/// The instruction sequence that the lowering emits is the structured body
/// written out, followed by the end of the function.
pub proof fn law_lowered_code_is_structured(f: Seq<Seq<OpCode>>, info: WasmExecutorInfo)
    ensures
        lowered_code(f, info) == flatten(lowered_body(f, info)) + seq![Instr::End],
{
    let n = f.len();
    let nest = seq![dispatch_nest(f, info, n)];
    let outer_body = nest + plain(seq![Instr::Unreachable]);
    let loop_body = seq![Node::Block(outer_body)];
    let nodes = lowered_body(f, info);
    lemma_nest_flat(f, info, n);
    lemma_flatten_plain(seq![Instr::Unreachable]);
    lemma_flatten_concat(nest, plain(seq![Instr::Unreachable]));
    lemma_flatten_block(outer_body);
    assert(nodes.skip(1) =~= Seq::<Node>::empty());
    assert(flatten(nodes) =~= seq![Instr::Loop] + flatten(loop_body) + seq![Instr::End]) by {
        reveal_with_fuel(flatten, 2);
    }
    assert(seq![Instr::Block] + scope_openers(n + 1) =~= scope_openers(n + 2));
    assert(lowered_code(f, info) =~= flatten(nodes) + seq![Instr::End]);
}

} // verus!
