//! The bytes of an artifact, read back with the decoder of `parity_wasm`.

use parity_wasm::elements::{External, Internal, Module, Opcode, Type, ValueType as Decoded};
use parity_wasm::elements::BlockType;
use wasm_jit::artifact::{to_opcodes, Export, FuncType, Import, LocalGroup, ValueType};
use wasm_jit::bytecode::{BasicBlock, Function, OpCode};
use wasm_jit::lowering::CompileError;
use wasm_jit::provider::{
    artifact_of, compile_function, measure_code, ArtifactLayout, ENTRY_FN, LOAD_GLOBAL_FN,
    MAX_CODE_SIZE, STORE_GLOBAL_FN,
};
use wasm_jit::target::WasmOp;

fn function(blocks: Vec<Vec<OpCode>>) -> Function {
    Function::from_basic_blocks(blocks.into_iter().map(BasicBlock::from_opcodes).collect())
}

fn decode(blocks: Vec<Vec<OpCode>>) -> Module {
    let bytes = compile_function(&function(blocks)).expect("the function compiles");
    parity_wasm::deserialize_buffer(&bytes).expect("the artifact parses")
}

#[test]
fn artifact_starts_with_the_module_header() {
    let bytes = compile_function(&function(vec![vec![OpCode::Return]])).unwrap();
    assert_eq!(&bytes[..8], &[0x00, 0x61, 0x73, 0x6d, 0x01, 0x00, 0x00, 0x00]);
}

#[test]
fn artifact_has_five_sections_in_order() {
    let module = decode(vec![vec![OpCode::Return]]);
    let kinds: Vec<&str> = module
        .sections()
        .iter()
        .map(|section| match section {
            parity_wasm::elements::Section::Type(_) => "type",
            parity_wasm::elements::Section::Import(_) => "import",
            parity_wasm::elements::Section::Function(_) => "function",
            parity_wasm::elements::Section::Export(_) => "export",
            parity_wasm::elements::Section::Code(_) => "code",
            _ => "other",
        })
        .collect();
    assert_eq!(kinds, vec!["type", "import", "function", "export", "code"]);
}

#[test]
fn signatures_are_those_of_the_callbacks_and_the_entry() {
    let module = decode(vec![vec![OpCode::Return]]);
    let types = module.type_section().unwrap().types();
    assert_eq!(types.len(), 3);
    let Type::Function(store) = &types[0];
    assert_eq!(store.params(), &[Decoded::I32, Decoded::I64]);
    assert_eq!(store.return_type(), None);
    let Type::Function(load) = &types[1];
    assert_eq!(load.params(), &[Decoded::I32]);
    assert_eq!(load.return_type(), Some(Decoded::I64));
    let Type::Function(entry) = &types[2];
    assert!(entry.params().is_empty());
    assert_eq!(entry.return_type(), None);
}

#[test]
fn imports_are_store_global_then_load_global() {
    let module = decode(vec![vec![OpCode::Return]]);
    let imports = module.import_section().unwrap().entries();
    assert_eq!(imports.len(), 2);
    assert_eq!(imports[0].module(), "env");
    assert_eq!(imports[0].field(), "store_global");
    assert!(matches!(imports[0].external(), External::Function(0)));
    assert_eq!(imports[1].module(), "env");
    assert_eq!(imports[1].field(), "load_global");
    assert!(matches!(imports[1].external(), External::Function(1)));
    assert_eq!(STORE_GLOBAL_FN, 0);
    assert_eq!(LOAD_GLOBAL_FN, 1);
}

#[test]
fn entry_point_is_exported_as_main() {
    let module = decode(vec![vec![OpCode::Return]]);
    let exports = module.export_section().unwrap().entries();
    assert_eq!(exports.len(), 1);
    assert_eq!(exports[0].field(), "main");
    assert!(matches!(exports[0].internal(), Internal::Function(2)));
    assert_eq!(ENTRY_FN, 2);
    let functions = module.function_section().unwrap().entries();
    assert_eq!(functions.len(), 1);
    assert_eq!(functions[0].type_ref(), 2);
}

#[test]
fn locals_are_the_dispatch_register_and_sixteen_value_registers() {
    let module = decode(vec![vec![OpCode::Return]]);
    let bodies = module.code_section().unwrap().bodies();
    assert_eq!(bodies.len(), 1);
    let locals = bodies[0].locals();
    assert_eq!(locals.len(), 2);
    assert_eq!((locals[0].count(), locals[0].value_type()), (1, Decoded::I32));
    assert_eq!((locals[1].count(), locals[1].value_type()), (16, Decoded::I64));
}

#[test]
fn body_decodes_to_the_lowered_code() {
    let module = decode(vec![
        vec![
            OpCode::SIConst64(1, -3),
            OpCode::LoadGlobal(2, 4),
            OpCode::SIAdd(1, 2),
            OpCode::Eq(0, 1),
            OpCode::ConditionalBranch(1, 0),
        ],
        vec![OpCode::StoreGlobal(5, 0), OpCode::Branch(0x8000_0000), OpCode::Return],
    ]);
    let code = module.code_section().unwrap().bodies()[0].code().elements().to_vec();
    assert_eq!(
        code,
        vec![
            Opcode::Loop(BlockType::NoResult),
            Opcode::Block(BlockType::NoResult),
            Opcode::Block(BlockType::NoResult),
            Opcode::Block(BlockType::NoResult),
            Opcode::Block(BlockType::NoResult),
            Opcode::GetLocal(0),
            Opcode::BrTable(vec![0, 1].into_boxed_slice(), 2),
            Opcode::End,
            Opcode::I64Const(-3),
            Opcode::SetLocal(2),
            Opcode::I32Const(4),
            Opcode::Call(1),
            Opcode::SetLocal(3),
            Opcode::GetLocal(2),
            Opcode::GetLocal(3),
            Opcode::I64Add,
            Opcode::SetLocal(1),
            Opcode::GetLocal(1),
            Opcode::GetLocal(2),
            Opcode::I64Eq,
            Opcode::I64ExtendSI32,
            Opcode::SetLocal(1),
            Opcode::I32Const(1),
            Opcode::I32Const(0),
            Opcode::GetLocal(1),
            Opcode::I64Const(0),
            Opcode::I64Ne,
            Opcode::Select,
            Opcode::SetLocal(0),
            Opcode::Br(3),
            Opcode::End,
            Opcode::I32Const(5),
            Opcode::GetLocal(1),
            Opcode::Call(0),
            Opcode::I32Const(i32::MIN),
            Opcode::SetLocal(0),
            Opcode::Return,
            Opcode::Br(2),
            Opcode::End,
            Opcode::Unreachable,
            Opcode::End,
            Opcode::End,
            Opcode::End,
        ]
    );
}

#[test]
fn every_instruction_converts_to_its_opcode() {
    let ops = vec![
        WasmOp::Unreachable,
        WasmOp::Block,
        WasmOp::Loop,
        WasmOp::End,
        WasmOp::Br(4),
        WasmOp::BrTable(vec![3, 1, 2], 9),
        WasmOp::Return,
        WasmOp::Call(6),
        WasmOp::Select,
        WasmOp::GetLocal(7),
        WasmOp::SetLocal(8),
        WasmOp::I32Const(-5),
        WasmOp::I64Const(i64::MIN),
        WasmOp::I64Eq,
        WasmOp::I64Ne,
        WasmOp::I64Add,
        WasmOp::I64ExtendSI32,
    ];
    assert_eq!(
        to_opcodes(&ops).elements().to_vec(),
        vec![
            Opcode::Unreachable,
            Opcode::Block(BlockType::NoResult),
            Opcode::Loop(BlockType::NoResult),
            Opcode::End,
            Opcode::Br(4),
            Opcode::BrTable(vec![3, 1, 2].into_boxed_slice(), 9),
            Opcode::Return,
            Opcode::Call(6),
            Opcode::Select,
            Opcode::GetLocal(7),
            Opcode::SetLocal(8),
            Opcode::I32Const(-5),
            Opcode::I64Const(i64::MIN),
            Opcode::I64Eq,
            Opcode::I64Ne,
            Opcode::I64Add,
            Opcode::I64ExtendSI32,
        ]
    );
    assert!(to_opcodes(&Vec::new()).elements().is_empty());
}

#[test]
fn layout_is_the_shape_of_the_artifact() {
    let layout = ArtifactLayout::new();
    assert_eq!(
        layout.types,
        vec![
            FuncType { params: vec![ValueType::I32, ValueType::I64], result: None },
            FuncType { params: vec![ValueType::I32], result: Some(ValueType::I64) },
            FuncType { params: vec![], result: None },
        ]
    );
    assert_eq!(
        layout.imports,
        vec![
            Import { module: "env".into(), field: "store_global".into(), type_index: 0 },
            Import { module: "env".into(), field: "load_global".into(), type_index: 1 },
        ]
    );
    assert_eq!(layout.functions, vec![2]);
    assert_eq!(layout.exports, vec![Export { field: "main".into(), function: 2 }]);
    assert_eq!(
        layout.locals,
        vec![
            LocalGroup { count: 1, value_type: ValueType::I32 },
            LocalGroup { count: 16, value_type: ValueType::I64 },
        ]
    );
}

#[test]
fn code_is_measured_by_its_size_bound() {
    assert_eq!(measure_code(&vec![]), Some(0));
    assert_eq!(measure_code(&vec![WasmOp::Return]), Some(11));
    assert_eq!(measure_code(&vec![WasmOp::I64Const(1), WasmOp::SetLocal(1)]), Some(22));
    assert_eq!(measure_code(&vec![WasmOp::BrTable(vec![], 0)]), Some(11));
    assert_eq!(measure_code(&vec![WasmOp::BrTable(vec![0, 1, 2], 3), WasmOp::End]), Some(37));
    assert_eq!(MAX_CODE_SIZE, 0xffff_0000);
}

#[test]
fn same_function_compiles_to_the_same_bytes() {
    let blocks = vec![vec![OpCode::SIConst64(1, 1), OpCode::StoreGlobal(0, 1), OpCode::Return]];
    let first = compile_function(&function(blocks.clone())).unwrap();
    let second = compile_function(&function(blocks)).unwrap();
    assert_eq!(first, second);
}

#[test]
fn compile_refuses_what_cannot_be_lowered() {
    let f = function(vec![vec![OpCode::Return], vec![OpCode::SIConst64(1, 1), OpCode::FAdd(1, 1)]]);
    assert_eq!(
        compile_function(&f),
        Err(CompileError::UnsupportedInstruction { block: 1, index: 1 })
    );
}

#[test]
fn function_that_can_be_lowered_always_yields_an_artifact() {
    let kinds = vec![
        vec![],
        vec![vec![]],
        vec![vec![OpCode::Return]],
        vec![vec![OpCode::Branch(0)]],
        vec![vec![OpCode::ConditionalBranch(1, 0)], vec![OpCode::Return]],
        vec![vec![OpCode::SIAdd(0, 15), OpCode::Eq(15, 0), OpCode::SIConst64(3, 1)]],
        vec![vec![OpCode::LoadGlobal(0, 0), OpCode::StoreGlobal(u32::MAX as usize, 15)]],
    ];
    for blocks in kinds {
        assert!(compile_function(&function(blocks)).is_ok());
    }
    let many: Vec<Vec<OpCode>> = (0..2000).map(|i| vec![OpCode::Branch(i)]).collect();
    assert!(compile_function(&function(many)).is_ok());
}

#[test]
fn encoder_failure_becomes_a_compile_error() {
    assert_eq!(artifact_of(Ok(vec![1, 2, 3])), Ok(vec![1, 2, 3]));
    assert_eq!(
        artifact_of(Err(parity_wasm::elements::Error::Other("refused"))),
        Err(CompileError::EncodingFailed)
    );
}
