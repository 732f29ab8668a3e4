//! The compiler proper, from a bytecode function to the bytes of its artifact,
//! and the cache that has each function compiled once.

use std::collections::HashMap;
use vstd::prelude::*;
use crate::artifact::{
    code_size_bound, exports_of, imports_of, instr_size_bound, module_bytes, module_sections,
    module_size_bound, new_module, push_code_section, push_export_section,
    push_function_section, push_import_section, push_type_section, section_size_bound,
    serialize_module, sum, to_opcodes, types_of, BodyModel, Export, ExportModel, FuncType,
    FuncTypeModel, Import, ImportModel, LocalGroup, SectionModel, ValueType,
};
use crate::bytecode::{Function, OpCode, REGISTER_COUNT};
use crate::encoder::{all_supported, supported, WasmExecutorInfo};
use crate::lowering::{
    blocks_code, dispatch_code, first_unsupported_in, function_supported, lower_function,
    lowered_code, scope_openers, CompileError, MAX_BLOCKS,
};
use crate::target::{code_of, Instr, WasmOp};

verus! {

/// Largest size bound of a function body that is compiled. It leaves room,
/// within 32 bits, for the rest of the module.
pub const MAX_CODE_SIZE: u32 = 0xffff_0000;

/// Function index of the store-global callback, the first import.
pub const STORE_GLOBAL_FN: u32 = 0;

/// Function index of the load-global callback, the second import.
pub const LOAD_GLOBAL_FN: u32 = 1;

/// Function index of the entry point, the one function after the imports.
pub const ENTRY_FN: u32 = 2;

/// The function indices that compiled code calls the host by.
pub open spec fn host_imports() -> WasmExecutorInfo {
    WasmExecutorInfo { store_global_fn: STORE_GLOBAL_FN, load_global_fn: LOAD_GLOBAL_FN }
}

/// The signatures of an artifact: store-global takes a 32-bit index and a
/// 64-bit value; load-global takes a 32-bit index and gives a 64-bit value;
/// the entry point takes and gives nothing.
pub open spec fn artifact_types() -> Seq<FuncTypeModel> {
    seq![
        FuncTypeModel { params: seq![ValueType::I32, ValueType::I64], result: None },
        FuncTypeModel { params: seq![ValueType::I32], result: Some(ValueType::I64) },
        FuncTypeModel { params: Seq::empty(), result: None },
    ]
}

/// The imports of an artifact, in the order of their function indices.
pub open spec fn artifact_imports() -> Seq<ImportModel> {
    seq![
        ImportModel { module: "env"@, field: "store_global"@, type_index: 0 },
        ImportModel { module: "env"@, field: "load_global"@, type_index: 1 },
    ]
}

/// The one export of an artifact: its entry point.
pub open spec fn artifact_exports() -> Seq<ExportModel> {
    seq![ExportModel { field: "main"@, function: ENTRY_FN }]
}

/// The locals of the entry point: the 32-bit dispatch register in slot 0 and
/// the sixteen 64-bit value registers in the slots after it.
pub open spec fn artifact_locals() -> Seq<LocalGroup> {
    seq![
        LocalGroup { count: 1, value_type: ValueType::I32 },
        LocalGroup { count: REGISTER_COUNT as u32, value_type: ValueType::I64 },
    ]
}

/// The sections of the artifact whose entry point has the given code.
pub open spec fn artifact_sections(code: Seq<Instr>) -> Seq<SectionModel> {
    seq![
        SectionModel::Type(artifact_types()),
        SectionModel::Import(artifact_imports()),
        SectionModel::Function(seq![2u32]),
        SectionModel::Export(artifact_exports()),
        SectionModel::Code(seq![BodyModel { locals: artifact_locals(), code }]),
    ]
}

/// What compiling a function yields.
///
/// A function with more blocks than the limit, or with operations that can
/// all be lowered to code beyond the size limit, is too large. A function
/// with an operation that cannot be lowered is refused with the place of the
/// first such operation. Every other function yields its artifact: the
/// encoding of the module that holds the lowered code.
pub open spec fn compilation_of(f: Seq<Seq<OpCode>>, result: Result<Seq<u8>, CompileError>) -> bool {
    let info = host_imports();
    let fits = code_size_bound(lowered_code(f, info)) <= MAX_CODE_SIZE;
    match result {
        Ok(bytes) => {
            &&& f.len() <= MAX_BLOCKS
            &&& function_supported(f, info)
            &&& fits
            &&& bytes == module_bytes(artifact_sections(lowered_code(f, info)))
        },
        Err(CompileError::EncodingFailed) => false,
        Err(CompileError::TooLarge) => {
            ||| f.len() > MAX_BLOCKS
            ||| function_supported(f, info) && !fits
        },
        Err(CompileError::UnsupportedInstruction { block, index }) => {
            &&& f.len() <= MAX_BLOCKS
            &&& first_unsupported_in(f, info, block as int, index as int)
        },
    }
}

/// The sizes of the instructions of a sequence.
pub open spec fn sizes_of(code: Seq<Instr>) -> Seq<nat> {
    Seq::new(code.len(), |i: int| instr_size_bound(code[i]))
}

/// A sum is at least the sum of a prefix.
pub proof fn lemma_sum_prefix(sizes: Seq<nat>, k: int)
    requires
        0 <= k <= sizes.len(),
    ensures
        sum(sizes.take(k)) <= sum(sizes),
    decreases sizes.len(),
{
    if k == sizes.len() {
        assert(sizes.take(k) =~= sizes);
    } else {
        assert(sizes.drop_last().take(k) =~= sizes.take(k));
        lemma_sum_prefix(sizes.drop_last(), k);
    }
}

/// The size bound of the code, where it is within the limit.
pub fn measure_code(ops: &Vec<WasmOp>) -> (size: Option<u32>)
    ensures
        match size {
            Some(s) => s == code_size_bound(code_of(ops@)) && s <= MAX_CODE_SIZE,
            None => code_size_bound(code_of(ops@)) > MAX_CODE_SIZE,
        },
{
    let ghost sizes = sizes_of(code_of(ops@));
    let mut total: u64 = 0;
    let mut i: usize = 0;
    while i < ops.len()
        invariant
            0 <= i <= ops@.len(),
            sizes == sizes_of(code_of(ops@)),
            total == sum(sizes.take(i as int)),
            total <= MAX_CODE_SIZE,
        decreases ops@.len() - i,
    {
        let size: u64 = match &ops[i] {
            WasmOp::BrTable(table, _) => {
                if table.len() > MAX_CODE_SIZE as usize {
                    MAX_CODE_SIZE as u64 + 1
                } else {
                    11 + 5 * (table.len() as u64)
                }
            },
            _ => 11,
        };
        proof {
            assert(sizes.take(i + 1).drop_last() =~= sizes.take(i as int));
            assert(sizes.take(i + 1).last() == instr_size_bound(ops@[i as int]@));
            lemma_sum_prefix(sizes, i + 1);
        }
        if total + size > MAX_CODE_SIZE as u64 {
            return None;
        }
        total = total + size;
        i += 1;
    }
    assert(sizes.take(ops@.len() as int) =~= sizes);
    Some(total as u32)
}

/// The sum of two sequences in a row is the sum of their sums.
pub proof fn lemma_sum_concat(a: Seq<nat>, b: Seq<nat>)
    ensures
        sum(a + b) == sum(a) + sum(b),
    decreases b.len(),
{
    if b.len() == 0 {
        assert(a + b =~= a);
    } else {
        assert((a + b).drop_last() =~= a + b.drop_last());
        lemma_sum_concat(a, b.drop_last());
    }
}

/// The size bound of two pieces of code in a row is the sum of their bounds.
pub proof fn lemma_code_size_concat(a: Seq<Instr>, b: Seq<Instr>)
    ensures
        code_size_bound(a + b) == code_size_bound(a) + code_size_bound(b),
{
    assert(sizes_of(a + b) =~= sizes_of(a) + sizes_of(b));
    lemma_sum_concat(sizes_of(a), sizes_of(b));
}

/// The size bound of `count` scope openings.
proof fn lemma_openers_size(count: nat)
    ensures
        code_size_bound(scope_openers(count)) == 11 * count,
    decreases count,
{
    if count > 0 {
        assert(sizes_of(scope_openers(count)).drop_last() =~= sizes_of(
            scope_openers((count - 1) as nat),
        ));
        lemma_openers_size((count - 1) as nat);
    }
}

/// A function with more blocks than the limit has code beyond the size
/// limit, whatever its blocks hold.
pub proof fn law_block_limit(f: Seq<Seq<OpCode>>, info: WasmExecutorInfo)
    requires
        f.len() > MAX_BLOCKS,
    ensures
        code_size_bound(lowered_code(f, info)) > MAX_CODE_SIZE,
{
    let n = f.len();
    let head = seq![Instr::Loop];
    let openers = scope_openers(n + 2);
    let dispatch = dispatch_code(n);
    let rest = seq![Instr::End] + blocks_code(f, info, n) + seq![
        Instr::Unreachable,
        Instr::End,
        Instr::End,
        Instr::End,
    ];
    assert(lowered_code(f, info) =~= head + openers + dispatch + rest);
    lemma_code_size_concat(head + openers + dispatch, rest);
    lemma_code_size_concat(head + openers, dispatch);
    lemma_code_size_concat(head, openers);
    lemma_openers_size(n + 2);
    assert(sizes_of(dispatch) =~= seq![11nat, (11 + 5 * n) as nat]);
    lemma_sum2(11, (11 + 5 * n) as nat);
}

/// The types, imports, exports and locals of an artifact.
pub struct ArtifactLayout {
    pub types: Vec<FuncType>,
    pub imports: Vec<Import>,
    pub functions: Vec<u32>,
    pub exports: Vec<Export>,
    pub locals: Vec<LocalGroup>,
}

impl ArtifactLayout {
    pub fn new() -> (layout: ArtifactLayout)
        ensures
            types_of(layout.types@) == artifact_types(),
            imports_of(layout.imports@) == artifact_imports(),
            layout.functions@ == seq![ENTRY_FN],
            exports_of(layout.exports@) == artifact_exports(),
            layout.locals@ == artifact_locals(),
    {
        let mut types: Vec<FuncType> = Vec::new();
        types.push(FuncType { params: vec![ValueType::I32, ValueType::I64], result: None });
        types.push(FuncType { params: vec![ValueType::I32], result: Some(ValueType::I64) });
        types.push(FuncType { params: Vec::new(), result: None });
        let mut imports: Vec<Import> = Vec::new();
        imports.push(
            Import {
                module: "env".to_owned(),
                field: "store_global".to_owned(),
                type_index: 0,
            },
        );
        imports.push(
            Import { module: "env".to_owned(), field: "load_global".to_owned(), type_index: 1 },
        );
        let mut exports: Vec<Export> = Vec::new();
        exports.push(Export { field: "main".to_owned(), function: ENTRY_FN });
        let locals = vec![
            LocalGroup { count: 1, value_type: ValueType::I32 },
            LocalGroup { count: REGISTER_COUNT as u32, value_type: ValueType::I64 },
        ];
        let layout = ArtifactLayout { types, imports, functions: vec![ENTRY_FN], exports, locals };
        assert(types_of(layout.types@) =~= artifact_types()) by {
            assert(layout.types@[0]@.params =~= artifact_types()[0].params);
            assert(layout.types@[1]@.params =~= artifact_types()[1].params);
            assert(layout.types@[2]@.params =~= artifact_types()[2].params);
        }
        assert(imports_of(layout.imports@) =~= artifact_imports());
        assert(exports_of(layout.exports@) =~= artifact_exports());
        assert(layout.locals@ =~= artifact_locals());
        assert(layout.functions@ =~= seq![ENTRY_FN]);
        layout
    }
}

/// The parts of a module around the code take less than this many bytes.
pub proof fn lemma_artifact_size(code: Seq<Instr>)
    ensures
        module_size_bound(artifact_sections(code)) <= code_size_bound(code) + 0x1000,
{
    reveal_strlit("env");
    reveal_strlit("store_global");
    reveal_strlit("load_global");
    reveal_strlit("main");
    reveal_with_fuel(sum, 8);
    let sections = artifact_sections(code);
    let types = artifact_types();
    let imports = artifact_imports();
    let exports = artifact_exports();
    let bodies = seq![BodyModel { locals: artifact_locals(), code }];
    let type_sizes = Seq::new(types.len(), |i: int| 8 + types[i].params.len());
    let import_sizes = Seq::new(
        imports.len(),
        |i: int| 16 + 4 * (imports[i].module.len() + imports[i].field.len()),
    );
    let export_sizes = Seq::new(exports.len(), |i: int| 11 + 4 * exports[i].field.len());
    let body_sizes = Seq::new(
        bodies.len(),
        |i: int| 10 + 6 * bodies[i].locals.len() + code_size_bound(bodies[i].code),
    );
    assert(type_sizes =~= seq![10nat, 9nat, 8nat]);
    assert(import_sizes =~= seq![76nat, 72nat]);
    assert(export_sizes =~= seq![27nat]);
    assert(body_sizes =~= seq![(22 + code_size_bound(code)) as nat]);
    assert(sum(seq![10nat, 9nat, 8nat]) == 27) by {
        lemma_sum3(10, 9, 8);
    }
    assert(sum(seq![76nat, 72nat]) == 148) by {
        lemma_sum2(76, 72);
    }
    assert(sum(seq![27nat]) == 27) by {
        lemma_sum1(27);
    }
    assert(sum(seq![(22 + code_size_bound(code)) as nat]) == 22 + code_size_bound(code)) by {
        lemma_sum1((22 + code_size_bound(code)) as nat);
    }
    let section_sizes = Seq::new(sections.len(), |i: int| section_size_bound(sections[i]));
    assert(section_sizes =~= seq![
        38nat,
        159nat,
        16nat,
        38nat,
        (33 + code_size_bound(code)) as nat,
    ]);
    lemma_sum5(38, 159, 16, 38, (33 + code_size_bound(code)) as nat);
}

proof fn lemma_sum1(a: nat)
    ensures
        sum(seq![a]) == a,
{
    reveal_with_fuel(sum, 2);
    assert(seq![a].drop_last() =~= Seq::<nat>::empty());
}

proof fn lemma_sum2(a: nat, b: nat)
    ensures
        sum(seq![a, b]) == a + b,
{
    assert(seq![a, b].drop_last() =~= seq![a]);
    lemma_sum1(a);
}

proof fn lemma_sum3(a: nat, b: nat, c: nat)
    ensures
        sum(seq![a, b, c]) == a + b + c,
{
    assert(seq![a, b, c].drop_last() =~= seq![a, b]);
    lemma_sum2(a, b);
}

proof fn lemma_sum5(a: nat, b: nat, c: nat, d: nat, e: nat)
    ensures
        sum(seq![a, b, c, d, e]) == a + b + c + d + e,
{
    reveal_with_fuel(sum, 2);
    assert(seq![a, b, c, d, e].drop_last() =~= seq![a, b, c, d]);
    assert(seq![a, b, c, d].drop_last() =~= seq![a, b, c]);
    lemma_sum3(a, b, c);
}

/// The artifact for what the binary encoder returned.
pub fn artifact_of(encoded: Result<Vec<u8>, parity_wasm::elements::Error>) -> (result: Result<
    Vec<u8>,
    CompileError,
>)
    ensures
        match encoded {
            Ok(bytes) => result == Ok::<Vec<u8>, CompileError>(bytes),
            Err(_) => result == Err::<Vec<u8>, CompileError>(CompileError::EncodingFailed),
        },
{
    match encoded {
        Ok(bytes) => Ok(bytes),
        Err(_) => Err(CompileError::EncodingFailed),
    }
}

/// Compiles a function to the bytes of its artifact.
pub fn compile_function(f: &Function) -> (result: Result<Vec<u8>, CompileError>)
    ensures
        compilation_of(
            f@,
            match result {
                Ok(bytes) => Ok(bytes@),
                Err(e) => Err(e),
            },
        ),
{
    let info = WasmExecutorInfo { store_global_fn: STORE_GLOBAL_FN, load_global_fn: LOAD_GLOBAL_FN };
    let ops = match lower_function(f, &info) {
        Ok(ops) => ops,
        Err(e) => {
            return Err(e);
        },
    };
    if measure_code(&ops).is_none() {
        return Err(CompileError::TooLarge);
    }
    let code = to_opcodes(&ops);
    let layout = ArtifactLayout::new();
    let mut module = new_module();
    push_type_section(&mut module, &layout.types);
    push_import_section(&mut module, &layout.imports);
    push_function_section(&mut module, &layout.functions);
    push_export_section(&mut module, &layout.exports);
    push_code_section(&mut module, &layout.locals, code);
    proof {
        assert(module_sections(module) =~= artifact_sections(lowered_code(f@, info)));
        lemma_artifact_size(lowered_code(f@, info));
    }
    artifact_of(serialize_module(module))
}

/// What the cache asks of the caller for one function.
#[derive(Debug, PartialEq, Eq)]
pub enum Prepared {
    /// The function was compiled and loaded before: run the module of this id.
    Cached(usize),
    /// The function was compiled just now: load these bytes and store the id.
    Compiled(Vec<u8>),
    /// The function cannot be compiled.
    Failed(CompileError),
}

/// The compilation cache: for each function id the id of the loaded module
/// that was compiled from it, and the number of compilations made.
pub struct WasmJitProvider {
    cache: HashMap<usize, usize>,
    compilations: u64,
}

/// The cache after the module of a function was stored: the first module
/// stored for a function stays.
pub open spec fn stored(cache: Map<usize, usize>, id: usize, module: usize) -> Map<usize, usize> {
    if cache.contains_key(id) {
        cache
    } else {
        cache.insert(id, module)
    }
}

/// The module that the cache holds for a function.
pub open spec fn lookup(cache: Map<usize, usize>, id: usize) -> Option<usize> {
    if cache.contains_key(id) {
        Some(cache[id])
    } else {
        None
    }
}

/// The number of compilations after a request for the function: one more
/// where the function is not in the cache, up to the largest number counted.
pub open spec fn compilations_after(cache: Map<usize, usize>, compilations: nat, id: usize) -> nat {
    if cache.contains_key(id) || compilations >= u64::MAX {
        compilations
    } else {
        compilations + 1
    }
}

impl WasmJitProvider {
    /// The modules that the cache holds, by function id.
    pub closed spec fn cache(&self) -> Map<usize, usize> {
        self.cache@
    }

    /// The number of compilations made so far.
    pub closed spec fn compilations(&self) -> nat {
        self.compilations as nat
    }

    pub fn new() -> (provider: WasmJitProvider)
        ensures
            provider.cache() == Map::<usize, usize>::empty(),
            provider.compilations() == 0,
    {
        WasmJitProvider { cache: HashMap::new(), compilations: 0 }
    }

    /// The number of compilations made so far.
    pub fn compilation_count(&self) -> (count: u64)
        ensures
            count == self.compilations(),
    {
        self.compilations
    }

    /// The module that was stored for the function, if one was.
    pub fn cached(&self, id: usize) -> (module: Option<usize>)
        ensures
            module == lookup(self.cache(), id),
    {
        broadcast use vstd::std_specs::hash::group_hash_axioms;

        match self.cache.get(&id) {
            Some(module) => Some(*module),
            None => None,
        }
    }

    /// Says what is to be done for a call of the function: for one that is in
    /// the cache, run its module, and nothing is compiled; for another one,
    /// which is compiled here and counted, load the artifact.
    pub fn prepare(&mut self, id: usize, f: &Function) -> (prepared: Prepared)
        ensures
            final(self).cache() == old(self).cache(),
            final(self).compilations() == compilations_after(
                old(self).cache(),
                old(self).compilations(),
                id,
            ),
            match prepared {
                Prepared::Cached(module) => lookup(old(self).cache(), id) == Some(module),
                Prepared::Compiled(bytes) => lookup(old(self).cache(), id) is None
                    && compilation_of(f@, Ok(bytes@)),
                Prepared::Failed(error) => lookup(old(self).cache(), id) is None
                    && compilation_of(f@, Err(error)),
            },
    {
        match self.cached(id) {
            Some(module) => Prepared::Cached(module),
            None => {
                if self.compilations < u64::MAX {
                    self.compilations = self.compilations + 1;
                }
                match compile_function(f) {
                    Ok(bytes) => Prepared::Compiled(bytes),
                    Err(error) => Prepared::Failed(error),
                }
            },
        }
    }

    /// Stores the module that the artifact of a function was loaded as, and
    /// gives the module that the function is run by from now on: the one
    /// stored first.
    pub fn store(&mut self, id: usize, module: usize) -> (kept: usize)
        ensures
            final(self).cache() == stored(old(self).cache(), id, module),
            final(self).compilations() == old(self).compilations(),
            lookup(final(self).cache(), id) == Some(kept),
    {
        broadcast use vstd::std_specs::hash::group_hash_axioms;

        match self.cached(id) {
            Some(kept) => kept,
            None => {
                self.cache.insert(id, module);
                module
            },
        }
    }
}

/// A function is compiled at most once: when its module has been stored, a
/// further request for it is answered from the cache with that same module
/// and leaves the number of compilations as it is, and storing a module for it
/// again changes nothing.
pub proof fn law_compiled_once(
    cache: Map<usize, usize>,
    compilations: nat,
    id: usize,
    module: usize,
    again: usize,
)
    ensures
        lookup(stored(cache, id, module), id) is Some,
        lookup(cache, id) is None ==> lookup(stored(cache, id, module), id) == Some(module),
        compilations_after(stored(cache, id, module), compilations, id) == compilations,
        stored(stored(cache, id, module), id, again) == stored(cache, id, module),
        forall|other: usize| other != id ==> lookup(stored(cache, id, module), other) == lookup(cache, other),
{
}

/// Compiling is a function of the blocks alone: two results for functions
/// with the same blocks are the same, artifact for artifact and error for
/// error.
pub proof fn law_compilation_is_determined(
    f: Seq<Seq<OpCode>>,
    first: Result<Seq<u8>, CompileError>,
    second: Result<Seq<u8>, CompileError>,
)
    requires
        compilation_of(f, first),
        compilation_of(f, second),
    ensures
        first == second,
{
    let info = host_imports();
    if let Err(CompileError::UnsupportedInstruction { block, index }) = first {
        assert(!all_supported(f[block as int], info)) by {
            if all_supported(f[block as int], info) {
                assert(supported(f[block as int][index as int], info));
            }
        }
        if let Err(CompileError::UnsupportedInstruction { block: block2, index: index2 }) = second {
            if block < block2 {
                assert(all_supported(f[block as int], info));
            }
            if block2 < block {
                assert(all_supported(f[block2 as int], info));
                assert(supported(f[block2 as int][index2 as int], info));
            }
            if index < index2 {
                assert(f[block as int].take(index2 as int)[index as int] == f[block as int][index as int]);
            }
            if index2 < index {
                assert(f[block as int].take(index as int)[index2 as int] == f[block as int][index2 as int]);
            }
        }
    } else if let Err(CompileError::UnsupportedInstruction { block, index }) = second {
        assert(!all_supported(f[block as int], info)) by {
            if all_supported(f[block as int], info) {
                assert(supported(f[block as int][index as int], info));
            }
        }
    }
}

/// The state of the cache after one invocation of a function: the function
/// is compiled where it is not in the cache, and the module it was loaded as
/// is stored.
pub open spec fn invoked(
    state: (Map<usize, usize>, nat),
    id: usize,
    module: usize,
) -> (Map<usize, usize>, nat) {
    (stored(state.0, id, module), compilations_after(state.0, state.1, id))
}

/// The state of the cache after invocations of one function, one for each of
/// the modules, which are those that loading would give.
pub open spec fn invoked_all(
    state: (Map<usize, usize>, nat),
    id: usize,
    modules: Seq<usize>,
) -> (Map<usize, usize>, nat)
    decreases modules.len(),
{
    if modules.len() == 0 {
        state
    } else {
        invoked(invoked_all(state, id, modules.drop_last()), id, modules.last())
    }
}

/// However often a function is invoked, it is compiled once: after one or
/// more invocations of a function that was not in the cache, the number of
/// compilations is one more than before, the cache holds for it the module of
/// the first invocation, and it holds for every other function what it held.
pub proof fn law_invocations_compile_once(
    cache: Map<usize, usize>,
    compilations: nat,
    id: usize,
    modules: Seq<usize>,
)
    requires
        modules.len() >= 1,
        !cache.contains_key(id),
        compilations < u64::MAX,
    ensures
        invoked_all((cache, compilations), id, modules).1 == compilations + 1,
        invoked_all((cache, compilations), id, modules).0 == cache.insert(id, modules[0]),
    decreases modules.len(),
{
    if modules.len() == 1 {
        assert(modules.drop_last() =~= Seq::<usize>::empty());
        reveal_with_fuel(invoked_all, 2);
    } else {
        law_invocations_compile_once(cache, compilations, id, modules.drop_last());
        assert(modules.drop_last()[0] == modules[0]);
    }
}

} // verus!
