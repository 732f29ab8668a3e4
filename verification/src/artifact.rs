//! The compiled artifact: a binary module with two imported host callbacks,
//! one exported entry point and one function body.
//!
//! The shape of the module is decided here; the binary encoding of it is the
//! work of the `parity_wasm` crate, which is reached through the functions of
//! this file that are marked `external_body`. Their contracts are believed,
//! not proved.

use vstd::prelude::*;
use crate::target::{code_of, Instr, WasmOp};
use parity_wasm::elements::{Module, Opcodes};

verus! {

/// The module representation of `parity_wasm`: an ordered list of sections.
#[verifier::external_type_specification]
#[verifier::external_body]
pub struct ExModule(parity_wasm::elements::Module);

/// The instruction list of `parity_wasm`.
#[verifier::external_type_specification]
#[verifier::external_body]
pub struct ExOpcodes(parity_wasm::elements::Opcodes);

/// The error of `parity_wasm`'s serialization.
#[verifier::external_type_specification]
#[verifier::external_body]
pub struct ExSerializationError(parity_wasm::elements::Error);

/// Type of a local or of a parameter.
#[derive(Clone, Copy, Debug, PartialEq, Eq, Structural)]
pub enum ValueType {
    I32,
    I64,
}

/// Model of a function signature.
pub struct FuncTypeModel {
    pub params: Seq<ValueType>,
    pub result: Option<ValueType>,
}

/// A function signature.
#[derive(Debug, PartialEq, Eq)]
pub struct FuncType {
    pub params: Vec<ValueType>,
    pub result: Option<ValueType>,
}

impl View for FuncType {
    type V = FuncTypeModel;

    open spec fn view(&self) -> FuncTypeModel {
        FuncTypeModel { params: self.params@, result: self.result }
    }
}

/// Model of an imported function.
pub struct ImportModel {
    pub module: Seq<char>,
    pub field: Seq<char>,
    pub type_index: u32,
}

/// An imported function: the two names it is resolved by and the index of its
/// signature.
#[derive(Debug, PartialEq, Eq)]
pub struct Import {
    pub module: String,
    pub field: String,
    pub type_index: u32,
}

impl View for Import {
    type V = ImportModel;

    open spec fn view(&self) -> ImportModel {
        ImportModel { module: self.module@, field: self.field@, type_index: self.type_index }
    }
}

/// Model of an exported function.
pub struct ExportModel {
    pub field: Seq<char>,
    pub function: u32,
}

/// An exported function: its public name and its function index.
#[derive(Debug, PartialEq, Eq)]
pub struct Export {
    pub field: String,
    pub function: u32,
}

impl View for Export {
    type V = ExportModel;

    open spec fn view(&self) -> ExportModel {
        ExportModel { field: self.field@, function: self.function }
    }
}

/// `count` consecutive locals of one type.
#[derive(Clone, Copy, Debug, PartialEq, Eq, Structural)]
pub struct LocalGroup {
    pub count: u32,
    pub value_type: ValueType,
}

/// Model of a function body.
pub struct BodyModel {
    pub locals: Seq<LocalGroup>,
    pub code: Seq<Instr>,
}

/// Model of one section of a module.
pub enum SectionModel {
    Type(Seq<FuncTypeModel>),
    Import(Seq<ImportModel>),
    Function(Seq<u32>),
    Export(Seq<ExportModel>),
    Code(Seq<BodyModel>),
}

pub open spec fn types_of(types: Seq<FuncType>) -> Seq<FuncTypeModel> {
    Seq::new(types.len(), |i: int| types[i]@)
}

pub open spec fn imports_of(imports: Seq<Import>) -> Seq<ImportModel> {
    Seq::new(imports.len(), |i: int| imports[i]@)
}

pub open spec fn exports_of(exports: Seq<Export>) -> Seq<ExportModel> {
    Seq::new(exports.len(), |i: int| exports[i]@)
}

/// The sections that a module holds, in their order.
pub uninterp spec fn module_sections(module: Module) -> Seq<SectionModel>;

/// The instructions that an instruction list holds, in their order.
pub uninterp spec fn opcodes_contents(code: Opcodes) -> Seq<Instr>;

/// The binary encoding of a module with the given sections.
pub uninterp spec fn module_bytes(sections: Seq<SectionModel>) -> Seq<u8>;

pub open spec fn sum(sizes: Seq<nat>) -> nat
    decreases sizes.len(),
{
    if sizes.len() == 0 {
        0
    } else {
        sum(sizes.drop_last()) + sizes.last()
    }
}

/// Upper bound on the encoded size of an instruction, in bytes: one byte for
/// the operation and at most ten for an immediate; a branch table holds a
/// count, its entries and a default of at most five bytes each.
pub open spec fn instr_size_bound(instr: Instr) -> nat {
    match instr {
        Instr::BrTable(table, _) => 11 + 5 * table.len(),
        _ => 11,
    }
}

/// Upper bound on the encoded size of an instruction sequence.
pub open spec fn code_size_bound(code: Seq<Instr>) -> nat {
    sum(Seq::new(code.len(), |i: int| instr_size_bound(code[i])))
}

/// Upper bound on the encoded size of a section, with its id and length. A
/// name takes at most four bytes for each character.
pub open spec fn section_size_bound(section: SectionModel) -> nat {
    6 + match section {
        SectionModel::Type(types) => 5 + sum(
            Seq::new(types.len(), |i: int| 8 + types[i].params.len()),
        ),
        SectionModel::Import(imports) => 5 + sum(
            Seq::new(
                imports.len(),
                |i: int| 16 + 4 * (imports[i].module.len() + imports[i].field.len()),
            ),
        ),
        SectionModel::Function(type_refs) => 5 + 5 * type_refs.len(),
        SectionModel::Export(exports) => 5 + sum(
            Seq::new(exports.len(), |i: int| 11 + 4 * exports[i].field.len()),
        ),
        SectionModel::Code(bodies) => 5 + sum(
            Seq::new(
                bodies.len(),
                |i: int| 10 + 6 * bodies[i].locals.len() + code_size_bound(bodies[i].code),
            ),
        ),
    }
}

/// Upper bound on the encoded size of a module. Every length that the
/// encoding writes is the length of a part of it.
pub open spec fn module_size_bound(sections: Seq<SectionModel>) -> nat {
    8 + sum(Seq::new(sections.len(), |i: int| section_size_bound(sections[i])))
}

/// `Module::default`: a module without sections.
#[verifier::external_body]
pub(crate) fn new_module() -> (module: Module)
    ensures
        module_sections(module) == Seq::<SectionModel>::empty(),
{
    Module::default()
}

/// Appends a type section, made by `TypeSection::with_types` of one
/// `FunctionType::new` for each signature, to the sections of the module.
#[verifier::external_body]
pub(crate) fn push_type_section(module: &mut Module, types: &Vec<FuncType>)
    ensures
        module_sections(*final(module)) == module_sections(*old(module)).push(
            SectionModel::Type(types_of(types@)),
        ),
{
    let value_type = |v: &ValueType| match *v {
        ValueType::I32 => parity_wasm::elements::ValueType::I32,
        ValueType::I64 => parity_wasm::elements::ValueType::I64,
    };
    let entries = types.iter().map(|t| parity_wasm::elements::Type::Function(
        parity_wasm::elements::FunctionType::new(
            t.params.iter().map(value_type).collect(),
            t.result.as_ref().map(value_type),
        ),
    )).collect();
    module.sections_mut().push(parity_wasm::elements::Section::Type(
        parity_wasm::elements::TypeSection::with_types(entries),
    ));
}

/// Appends an import section, made by `ImportSection::with_entries` of one
/// `ImportEntry::new` with `External::Function` for each import.
#[verifier::external_body]
pub(crate) fn push_import_section(module: &mut Module, imports: &Vec<Import>)
    ensures
        module_sections(*final(module)) == module_sections(*old(module)).push(
            SectionModel::Import(imports_of(imports@)),
        ),
{
    let entries = imports.iter().map(|i| parity_wasm::elements::ImportEntry::new(
        i.module.clone(),
        i.field.clone(),
        parity_wasm::elements::External::Function(i.type_index),
    )).collect();
    module.sections_mut().push(parity_wasm::elements::Section::Import(
        parity_wasm::elements::ImportSection::with_entries(entries),
    ));
}

/// Appends a function section, made by `FunctionSection::with_entries` of one
/// `Func::new` for each signature index.
#[verifier::external_body]
pub(crate) fn push_function_section(module: &mut Module, type_refs: &Vec<u32>)
    ensures
        module_sections(*final(module)) == module_sections(*old(module)).push(
            SectionModel::Function(type_refs@),
        ),
{
    let entries = type_refs.iter().map(|t| parity_wasm::elements::Func::new(*t)).collect();
    module.sections_mut().push(parity_wasm::elements::Section::Function(
        parity_wasm::elements::FunctionSection::with_entries(entries),
    ));
}

/// Appends an export section, made by `ExportSection::with_entries` of one
/// `ExportEntry::new` with `Internal::Function` for each export.
#[verifier::external_body]
pub(crate) fn push_export_section(module: &mut Module, exports: &Vec<Export>)
    ensures
        module_sections(*final(module)) == module_sections(*old(module)).push(
            SectionModel::Export(exports_of(exports@)),
        ),
{
    let entries = exports.iter().map(|e| parity_wasm::elements::ExportEntry::new(
        e.field.clone(),
        parity_wasm::elements::Internal::Function(e.function),
    )).collect();
    module.sections_mut().push(parity_wasm::elements::Section::Export(
        parity_wasm::elements::ExportSection::with_entries(entries),
    ));
}

/// Appends a code section with one body, made by `FuncBody::new` of one
/// `Local::new` for each group of locals and of the instruction list.
#[verifier::external_body]
pub(crate) fn push_code_section(module: &mut Module, locals: &Vec<LocalGroup>, code: Opcodes)
    ensures
        module_sections(*final(module)) == module_sections(*old(module)).push(
            SectionModel::Code(seq![BodyModel { locals: locals@, code: opcodes_contents(code) }]),
        ),
{
    let entries = locals.iter().map(|l| parity_wasm::elements::Local::new(l.count, match l.value_type {
        ValueType::I32 => parity_wasm::elements::ValueType::I32,
        ValueType::I64 => parity_wasm::elements::ValueType::I64,
    })).collect();
    let body = parity_wasm::elements::FuncBody::new(entries, code);
    module.sections_mut().push(parity_wasm::elements::Section::Code(
        parity_wasm::elements::CodeSection::with_bodies(vec![body]),
    ));
}

/// `parity_wasm::serialize` of a module: the encoding of its sections. The
/// encoder writes into a vector of its own and gives an error only where a
/// write fails, which a write to a vector never does; so the result is `Ok`.
/// The encoding stops with a panic at a length beyond 32 bits, which the size
/// bound rules out.
#[verifier::external_body]
pub(crate) fn serialize_module(module: Module) -> (result: Result<
    Vec<u8>,
    parity_wasm::elements::Error,
>)
    requires
        module_size_bound(module_sections(module)) <= u32::MAX,
    ensures
        result is Ok,
        result matches Ok(bytes) ==> bytes@ == module_bytes(module_sections(module)),
{
    parity_wasm::serialize(module)
}

/// `Opcodes::new` of an empty vector.
#[verifier::external_body]
fn new_opcodes() -> (code: Opcodes)
    ensures
        opcodes_contents(code) == Seq::<Instr>::empty(),
{
    Opcodes::new(Vec::new())
}

/// Whether the instruction is one of those that steer control.
pub open spec fn is_control(instr: Instr) -> bool {
    match instr {
        Instr::Unreachable
        | Instr::Block
        | Instr::Loop
        | Instr::End
        | Instr::Br(_)
        | Instr::BrTable(_, _)
        | Instr::Return
        | Instr::Call(_) => true,
        _ => false,
    }
}

/// Appends the `Opcode` of a control instruction through
/// `Opcodes::elements_mut`; a scope is opened with `BlockType::NoResult`. Says
/// whether the instruction was one, and appends nothing where it was not.
#[verifier::external_body]
fn push_control(code: &mut Opcodes, op: &WasmOp) -> (done: bool)
    ensures
        done == is_control(op@),
        done ==> opcodes_contents(*final(code)) == opcodes_contents(*old(code)).push(op@),
        !done ==> opcodes_contents(*final(code)) == opcodes_contents(*old(code)),
{
    let opcode = match op {
        WasmOp::Unreachable => parity_wasm::elements::Opcode::Unreachable,
        WasmOp::Block => parity_wasm::elements::Opcode::Block(parity_wasm::elements::BlockType::NoResult),
        WasmOp::Loop => parity_wasm::elements::Opcode::Loop(parity_wasm::elements::BlockType::NoResult),
        WasmOp::End => parity_wasm::elements::Opcode::End,
        WasmOp::Br(depth) => parity_wasm::elements::Opcode::Br(*depth),
        WasmOp::BrTable(table, default) => parity_wasm::elements::Opcode::BrTable(table.clone().into_boxed_slice(), *default),
        WasmOp::Return => parity_wasm::elements::Opcode::Return,
        WasmOp::Call(index) => parity_wasm::elements::Opcode::Call(*index),
        _ => return false,
    };
    code.elements_mut().push(opcode);
    true
}

/// Appends the `Opcode` of an instruction that works on operands or locals
/// through `Opcodes::elements_mut`. Says whether the instruction was one, and
/// appends nothing where it was not.
#[verifier::external_body]
fn push_operand(code: &mut Opcodes, op: &WasmOp) -> (done: bool)
    ensures
        done == !is_control(op@),
        done ==> opcodes_contents(*final(code)) == opcodes_contents(*old(code)).push(op@),
        !done ==> opcodes_contents(*final(code)) == opcodes_contents(*old(code)),
{
    let opcode = match op {
        WasmOp::Select => parity_wasm::elements::Opcode::Select,
        WasmOp::GetLocal(slot) => parity_wasm::elements::Opcode::GetLocal(*slot),
        WasmOp::SetLocal(slot) => parity_wasm::elements::Opcode::SetLocal(*slot),
        WasmOp::I32Const(value) => parity_wasm::elements::Opcode::I32Const(*value),
        WasmOp::I64Const(value) => parity_wasm::elements::Opcode::I64Const(*value),
        WasmOp::I64Eq => parity_wasm::elements::Opcode::I64Eq,
        WasmOp::I64Ne => parity_wasm::elements::Opcode::I64Ne,
        WasmOp::I64Add => parity_wasm::elements::Opcode::I64Add,
        WasmOp::I64ExtendSI32 => parity_wasm::elements::Opcode::I64ExtendSI32,
        _ => return false,
    };
    code.elements_mut().push(opcode);
    true
}

/// The instruction list of `parity_wasm` that holds the given instructions.
pub fn to_opcodes(ops: &Vec<WasmOp>) -> (code: Opcodes)
    ensures
        opcodes_contents(code) == code_of(ops@),
{
    let mut code = new_opcodes();
    let mut i: usize = 0;
    while i < ops.len()
        invariant
            0 <= i <= ops@.len(),
            opcodes_contents(code) == code_of(ops@).take(i as int),
        decreases ops@.len() - i,
    {
        if !push_control(&mut code, &ops[i]) {
            let done = push_operand(&mut code, &ops[i]);
            assert(done);
        }
        i += 1;
        assert(code_of(ops@).take(i as int) =~= code_of(ops@).take(i - 1).push(ops@[i - 1]@));
    }
    assert(code_of(ops@).take(ops@.len() as int) =~= code_of(ops@));
    code
}

} // verus!
