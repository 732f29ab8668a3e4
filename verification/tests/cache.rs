//! The compilation cache, and a whole invocation through it.

use std::cell::RefCell;
use std::collections::HashMap;
use std::rc::Rc;

use parity_wasm::elements::{Module, ValueType};
use parity_wasm::interpreter::{
    native_module, CallerContext, Error, ExecutionParams, ModuleInstanceInterface,
    ProgramInstance, RuntimeValue, UserDefinedElements, UserFunctionDescriptor,
    UserFunctionExecutor,
};
use wasm_jit::bytecode::{BasicBlock, Function, OpCode};
use wasm_jit::interpreter::{global_in_range, Interpreter};
use wasm_jit::lowering::CompileError;
use wasm_jit::provider::{compile_function, Prepared, WasmJitProvider};

fn function(blocks: Vec<Vec<OpCode>>) -> Function {
    Function::from_basic_blocks(blocks.into_iter().map(BasicBlock::from_opcodes).collect())
}

fn sample() -> Function {
    function(vec![vec![
        OpCode::SIConst64(1, 42),
        OpCode::SIConst64(2, 66),
        OpCode::SIAdd(1, 2),
        OpCode::StoreGlobal(0, 0),
        OpCode::Return,
    ]])
}

#[test]
fn new_cache_is_empty() {
    let provider = WasmJitProvider::new();
    assert_eq!(provider.compilation_count(), 0);
    assert_eq!(provider.cached(0), None);
    assert_eq!(provider.cached(usize::MAX), None);
}

#[test]
fn first_request_compiles() {
    let mut provider = WasmJitProvider::new();
    let f = sample();
    assert_eq!(provider.prepare(3, &f), Prepared::Compiled(compile_function(&f).unwrap()));
    assert_eq!(provider.compilation_count(), 1);
    assert_eq!(provider.cached(3), None);
}

#[test]
fn second_request_is_answered_from_the_cache() {
    let mut provider = WasmJitProvider::new();
    let f = sample();
    assert!(matches!(provider.prepare(3, &f), Prepared::Compiled(_)));
    assert_eq!(provider.store(3, 17), 17);
    assert_eq!(provider.prepare(3, &f), Prepared::Cached(17));
    assert_eq!(provider.prepare(3, &f), Prepared::Cached(17));
    assert_eq!(provider.compilation_count(), 1);
    assert_eq!(provider.cached(3), Some(17));
}

#[test]
fn first_stored_module_stays() {
    let mut provider = WasmJitProvider::new();
    assert_eq!(provider.store(5, 1), 1);
    assert_eq!(provider.store(5, 2), 1);
    assert_eq!(provider.cached(5), Some(1));
    assert_eq!(provider.compilation_count(), 0);
}

#[test]
fn functions_are_cached_apart() {
    let mut provider = WasmJitProvider::new();
    let f = sample();
    assert!(matches!(provider.prepare(0, &f), Prepared::Compiled(_)));
    provider.store(0, 10);
    assert!(matches!(provider.prepare(1, &f), Prepared::Compiled(_)));
    provider.store(1, 11);
    assert_eq!(provider.compilation_count(), 2);
    assert_eq!(provider.prepare(0, &f), Prepared::Cached(10));
    assert_eq!(provider.prepare(1, &f), Prepared::Cached(11));
    assert_eq!(provider.cached(2), None);
    assert_eq!(provider.compilation_count(), 2);
}

#[test]
fn function_that_cannot_be_compiled_is_not_cached() {
    let mut provider = WasmJitProvider::new();
    let f = function(vec![vec![OpCode::Mov(1, 2), OpCode::Return]]);
    let failed = Prepared::Failed(CompileError::UnsupportedInstruction { block: 0, index: 0 });
    assert_eq!(provider.prepare(0, &f), failed);
    assert_eq!(provider.cached(0), None);
    assert_eq!(provider.prepare(0, &f), failed);
    assert_eq!(provider.compilation_count(), 2);
}

struct HostState {
    globals: [u64; 16],
}

struct Host {
    state: Rc<RefCell<HostState>>,
}

impl UserFunctionExecutor for Host {
    fn execute(
        &mut self,
        name: &str,
        context: CallerContext,
    ) -> Result<Option<RuntimeValue>, Error> {
        match name {
            "store_global" => {
                let value = context.value_stack.pop_as::<i64>()? as u64;
                let index = context.value_stack.pop_as::<i32>()? as u32;
                let mut state = self.state.borrow_mut();
                if !global_in_range(index, state.globals.len()) {
                    return Err(Error::Trap("no such global".into()));
                }
                state.globals[index as usize] = value;
                Ok(None)
            }
            "load_global" => {
                let index = context.value_stack.pop_as::<i32>()? as u32;
                let state = self.state.borrow();
                if !global_in_range(index, state.globals.len()) {
                    return Err(Error::Trap("no such global".into()));
                }
                Ok(Some(RuntimeValue::I64(state.globals[index as usize] as i64)))
            }
            _ => Err(Error::Trap("no such host function".into())),
        }
    }
}

/// The host's globals with the operations the embedding VM offers on them.
struct Executor {
    state: Rc<RefCell<HostState>>,
}

impl Executor {
    fn new() -> Executor {
        Executor { state: Rc::new(RefCell::new(HostState { globals: [0; 16] })) }
    }

    fn read_global(&self, id: usize) -> u64 {
        self.state.borrow().globals[id]
    }

    fn write_global(&self, id: usize, value: u64) {
        self.state.borrow_mut().globals[id] = value;
    }
}

fn run(bytes: &[u8], executor: &Executor) -> Result<(), Error> {
    let module: Module = parity_wasm::deserialize_buffer(bytes).expect("the artifact parses");
    let program = ProgramInstance::new();
    let env = program
        .add_module("env", parity_wasm::builder::module().build(), None)
        .expect("an empty module loads");
    let functions = vec![
        UserFunctionDescriptor::Static("store_global", &[ValueType::I32, ValueType::I64], None),
        UserFunctionDescriptor::Static("load_global", &[ValueType::I32], Some(ValueType::I64)),
    ];
    let native = native_module(
        env,
        UserDefinedElements {
            globals: HashMap::new(),
            functions: std::borrow::Cow::from(functions),
            executor: Some(Host { state: executor.state.clone() }),
        },
    )
    .expect("the host module is built");
    let params = ExecutionParams::with_external("env".into(), native);
    let instance = program
        .add_module("main", module, Some(&params.externals))
        .expect("the artifact validates and links");
    instance.execute_export("main", params.clone()).map(|_| ())
}

/// One invocation of a function of the program: compile on first use, load,
/// remember, then run within a call scope.
fn invoke(
    provider: &mut WasmJitProvider,
    interpreter: &mut Interpreter<'_, Executor, Vec<u8>>,
    program: &[Function],
    id: usize,
    executor: &Executor,
) -> bool {
    let module = match provider.prepare(id, &program[id]) {
        Prepared::Cached(module) => module,
        Prepared::Compiled(bytes) => {
            let loaded = interpreter.load_module(bytes);
            provider.store(id, loaded)
        }
        Prepared::Failed(_) => return false,
    };
    let bytes = interpreter.module(module).expect("the module was loaded").clone();
    run(&bytes, executor).is_ok()
}

#[test]
fn invoking_twice_compiles_once() {
    let executor = Executor::new();
    let program = vec![sample()];
    let mut provider = WasmJitProvider::new();
    let mut interpreter = Interpreter::new();
    assert!(invoke(&mut provider, &mut interpreter, &program, 0, &executor));
    assert_eq!(executor.read_global(0), 108);
    let first = provider.cached(0);
    executor.write_global(0, 0);
    assert!(invoke(&mut provider, &mut interpreter, &program, 0, &executor));
    assert_eq!(executor.read_global(0), 108);
    assert_eq!(provider.cached(0), first);
    assert_eq!(provider.cached(0), Some(0));
    assert_eq!(provider.compilation_count(), 1);
    assert_eq!(interpreter.modules.len(), 1);
}

#[test]
fn test_basic() {
    let program = vec![function(vec![vec![OpCode::Return]])];
    let executor = Executor::new();
    // A function that only returns stores nothing: what the host held before
    // the call, it holds after it.
    executor.write_global(0, 42);
    let mut provider = WasmJitProvider::new();
    let mut interpreter = Interpreter::new();
    assert!(invoke(&mut provider, &mut interpreter, &program, 0, &executor));

    assert_eq!(executor.read_global(0), 42);
}
