//! The execution bridge: module table, host calls, the stack of contexts, and
//! a whole call through the interpreter of `parity_wasm`.

use std::cell::RefCell;
use std::collections::HashMap;

use parity_wasm::elements::{Module, ValueType as EngineType};
use parity_wasm::interpreter::{
    native_module, CallerContext, Error, ExecutionParams, ModuleInstanceInterface,
    ProgramInstance, RuntimeValue, UserDefinedElements, UserFunctionDescriptor,
    UserFunctionExecutor,
};
use wasm_jit::artifact::ValueType;
use wasm_jit::bytecode::{BasicBlock, Function, OpCode};
use wasm_jit::interpreter::{
    classify, global_in_range, host_call, host_function, to_signed64, to_unsigned32,
    to_unsigned64, BridgeExecutor, EngineFault, ExecutionError, HostCall, HostFunction, HostValue, Interpreter,
    Stage,
};
use wasm_jit::provider::compile_function;
use wasm_jit::safe_context::{ContextOwner, ContractViolation};

struct Context {
    globals: RefCell<[u64; 16]>,
}

impl Context {
    fn new() -> Context {
        Context { globals: RefCell::new([0; 16]) }
    }
}

#[test]
fn failures_are_classified_by_stage() {
    assert_eq!(classify(Stage::Parse, EngineFault::Program), ExecutionError::LoadFailure);
    assert_eq!(classify(Stage::Parse, EngineFault::Trap), ExecutionError::LoadFailure);
    assert_eq!(classify(Stage::Instantiate, EngineFault::Validation), ExecutionError::LoadFailure);
    assert_eq!(classify(Stage::Instantiate, EngineFault::Program), ExecutionError::LinkFailure);
    assert_eq!(classify(Stage::Instantiate, EngineFault::Function), ExecutionError::LinkFailure);
    assert_eq!(classify(Stage::Instantiate, EngineFault::Native), ExecutionError::LinkFailure);
    assert_eq!(classify(Stage::Run, EngineFault::Trap), ExecutionError::ExecutionTrap);
    assert_eq!(classify(Stage::Run, EngineFault::User), ExecutionError::ExecutionTrap);
    assert_eq!(classify(Stage::Run, EngineFault::Validation), ExecutionError::ExecutionTrap);
}

#[test]
fn callbacks_are_found_by_their_import_names() {
    assert_eq!(host_function("store_global"), Some(HostFunction::StoreGlobal));
    assert_eq!(host_function("load_global"), Some(HostFunction::LoadGlobal));
    assert_eq!(host_function("main"), None);
    assert_eq!(host_function(""), None);
    assert_eq!(host_function("store_globals"), None);
    assert_eq!(HostFunction::StoreGlobal.name(), "store_global");
    assert_eq!(HostFunction::LoadGlobal.name(), "load_global");
}

#[test]
fn callbacks_have_the_signatures_of_the_imports() {
    assert_eq!(HostFunction::StoreGlobal.params(), vec![ValueType::I32, ValueType::I64]);
    assert_eq!(HostFunction::StoreGlobal.result(), None);
    assert_eq!(HostFunction::LoadGlobal.params(), vec![ValueType::I32]);
    assert_eq!(HostFunction::LoadGlobal.result(), Some(ValueType::I64));
}

#[test]
fn bit_patterns_are_kept() {
    assert_eq!(to_unsigned32(0), 0);
    assert_eq!(to_unsigned32(-1), u32::MAX);
    assert_eq!(to_unsigned32(i32::MIN), 0x8000_0000);
    assert_eq!(to_unsigned64(-1), u64::MAX);
    assert_eq!(to_unsigned64(i64::MIN), 0x8000_0000_0000_0000);
    assert_eq!(to_unsigned64(5), 5);
    assert_eq!(to_signed64(u64::MAX), -1);
    assert_eq!(to_signed64(0x8000_0000_0000_0000), i64::MIN);
    assert_eq!(to_signed64(5), 5);
}

#[test]
fn global_index_is_held_against_the_number_of_globals() {
    assert!(global_in_range(0, 16));
    assert!(global_in_range(15, 16));
    assert!(!global_in_range(16, 16));
    assert!(!global_in_range(u32::MAX, 16));
    assert!(!global_in_range(0, 0));
    assert!(global_in_range(u32::MAX, usize::MAX));
}

#[test]
fn arguments_become_host_calls() {
    assert_eq!(
        host_call(HostFunction::StoreGlobal, &vec![HostValue::I32(3), HostValue::I64(-1)]),
        Ok(HostCall::StoreGlobal { index: 3, value: u64::MAX })
    );
    assert_eq!(
        host_call(HostFunction::LoadGlobal, &vec![HostValue::I32(-1)]),
        Ok(HostCall::LoadGlobal { index: u32::MAX })
    );
}

#[test]
fn arguments_of_another_signature_fail_to_link() {
    let link = Err(ExecutionError::LinkFailure);
    assert_eq!(host_call(HostFunction::StoreGlobal, &vec![]), link);
    assert_eq!(host_call(HostFunction::StoreGlobal, &vec![HostValue::I32(0)]), link);
    assert_eq!(
        host_call(HostFunction::StoreGlobal, &vec![HostValue::I64(0), HostValue::I32(0)]),
        link
    );
    assert_eq!(
        host_call(
            HostFunction::StoreGlobal,
            &vec![HostValue::I32(0), HostValue::I64(0), HostValue::I64(0)]
        ),
        link
    );
    assert_eq!(host_call(HostFunction::LoadGlobal, &vec![]), link);
    assert_eq!(host_call(HostFunction::LoadGlobal, &vec![HostValue::I64(0)]), link);
    assert_eq!(
        host_call(HostFunction::LoadGlobal, &vec![HostValue::I32(0), HostValue::I32(0)]),
        link
    );
}

#[test]
fn modules_get_consecutive_ids() {
    let mut interpreter: Interpreter<Context, &str> = Interpreter::new();
    assert_eq!(interpreter.module(0), None);
    assert_eq!(interpreter.load_module("first"), 0);
    assert_eq!(interpreter.load_module("second"), 1);
    assert_eq!(interpreter.load_module("third"), 2);
    assert_eq!(interpreter.module(0), Some(&"first"));
    assert_eq!(interpreter.module(2), Some(&"third"));
    assert_eq!(interpreter.module(3), None);
    assert_eq!(interpreter.module(usize::MAX), None);
}

#[test]
fn bridge_knows_the_context_of_the_innermost_call() {
    let outer = Context::new();
    let inner = Context::new();
    let mut outer_owner = ContextOwner::new(&outer);
    let mut inner_owner = ContextOwner::new(&inner);
    let mut bridge = BridgeExecutor::new();
    assert_eq!(bridge.depth(), 0);
    assert!(bridge.current().is_none());
    bridge.push(outer_owner.handle());
    assert!(std::ptr::eq(bridge.current().unwrap(), &outer));
    bridge.push(inner_owner.handle());
    assert_eq!(bridge.depth(), 2);
    assert!(std::ptr::eq(bridge.current().unwrap(), &inner));
    let popped = bridge.pop().unwrap();
    assert!(std::ptr::eq(popped.get(), &inner));
    assert!(std::ptr::eq(bridge.current().unwrap(), &outer));
    assert!(bridge.pop().is_some());
    assert!(bridge.pop().is_none());
    assert_eq!(bridge.depth(), 0);
}

#[test]
fn call_scope_opens_and_closes() {
    let context = Context::new();
    let mut interpreter: Interpreter<Context, ()> = Interpreter::new();
    let owner = interpreter.begin_call(&context);
    assert_eq!(owner.reference_count(), 2);
    assert_eq!(interpreter.bridge_executor.depth(), 1);
    assert!(std::ptr::eq(interpreter.bridge_executor.current().unwrap(), &context));
    assert_eq!(interpreter.end_call(owner), Ok(()));
    assert_eq!(interpreter.bridge_executor.depth(), 0);
}

#[test]
fn call_scope_that_leaks_a_handle_ends_in_a_violation() {
    let context = Context::new();
    let mut interpreter: Interpreter<Context, ()> = Interpreter::new();
    let mut owner = interpreter.begin_call(&context);
    let leaked = owner.handle();
    assert_eq!(interpreter.end_call(owner), Err(ContractViolation { references: 2 }));
    assert_eq!(interpreter.bridge_executor.depth(), 0);
    assert!(std::ptr::eq(leaked.get(), &context));
}

#[test]
fn call_scope_whose_handle_was_taken_off_ends_in_a_violation() {
    let context = Context::new();
    let mut interpreter: Interpreter<Context, ()> = Interpreter::new();
    let owner = interpreter.begin_call(&context);
    let taken = interpreter.bridge_executor.pop();
    assert!(taken.is_some());
    assert_eq!(interpreter.end_call(owner), Err(ContractViolation { references: 2 }));
}

#[test]
fn nested_call_scopes_close_in_reverse() {
    let outer = Context::new();
    let inner = Context::new();
    let mut interpreter: Interpreter<Context, ()> = Interpreter::new();
    let outer_owner = interpreter.begin_call(&outer);
    let inner_owner = interpreter.begin_call(&inner);
    assert_eq!(interpreter.bridge_executor.depth(), 2);
    assert_eq!(interpreter.end_call(inner_owner), Ok(()));
    assert!(std::ptr::eq(interpreter.bridge_executor.current().unwrap(), &outer));
    assert_eq!(interpreter.end_call(outer_owner), Ok(()));
}

/// The callbacks as the engine calls them: they find the context of the
/// current call on the bridge.
struct Callbacks<'a> {
    interpreter: &'a RefCell<Interpreter<'a, Context, Vec<u8>>>,
}

impl<'a> UserFunctionExecutor for Callbacks<'a> {
    fn execute(
        &mut self,
        name: &str,
        context: CallerContext,
    ) -> Result<Option<RuntimeValue>, Error> {
        let function = host_function(name).ok_or(Error::Function("no such callback".into()))?;
        let mut args = Vec::new();
        for param in function.params().iter().rev() {
            args.push(match param {
                ValueType::I32 => HostValue::I32(context.value_stack.pop_as::<i32>()?),
                ValueType::I64 => HostValue::I64(context.value_stack.pop_as::<i64>()?),
            });
        }
        args.reverse();
        let call = host_call(function, &args).map_err(|_| Error::Function("signature".into()))?;
        let interpreter = self.interpreter.borrow();
        let current = interpreter
            .bridge_executor
            .current()
            .ok_or(Error::Trap("no call is running".into()))?;
        let mut globals = current.globals.borrow_mut();
        match call {
            HostCall::StoreGlobal { index, value } => {
                if !global_in_range(index, globals.len()) {
                    return Err(Error::Trap("global".into()));
                }
                globals[index as usize] = value;
                Ok(None)
            }
            HostCall::LoadGlobal { index } => {
                if !global_in_range(index, globals.len()) {
                    return Err(Error::Trap("global".into()));
                }
                Ok(Some(RuntimeValue::I64(to_signed64(globals[index as usize]))))
            }
        }
    }
}

fn engine_type(value_type: ValueType) -> EngineType {
    match value_type {
        ValueType::I32 => EngineType::I32,
        ValueType::I64 => EngineType::I64,
    }
}

fn descriptor(function: HostFunction) -> UserFunctionDescriptor {
    UserFunctionDescriptor::Heap(
        function.name(),
        function.params().into_iter().map(engine_type).collect(),
        function.result().map(engine_type),
    )
}

/// Runs the module of the given id once, with the given context as that of
/// the call.
fn execute<'a>(
    interpreter: &'a RefCell<Interpreter<'a, Context, Vec<u8>>>,
    id: usize,
    context: &'a Context,
) -> Result<(), ExecutionError> {
    let bytes = interpreter.borrow().module(id).expect("the module was loaded").clone();
    let module: Module = parity_wasm::deserialize_buffer(&bytes)
        .map_err(|_| classify(Stage::Parse, EngineFault::Program))?;
    let program = ProgramInstance::new();
    let env = program
        .add_module("env", parity_wasm::builder::module().build(), None)
        .expect("an empty module loads");
    let functions =
        vec![descriptor(HostFunction::StoreGlobal), descriptor(HostFunction::LoadGlobal)];
    let native = native_module(
        env,
        UserDefinedElements {
            globals: HashMap::new(),
            functions: std::borrow::Cow::from(functions),
            executor: Some(Callbacks { interpreter }),
        },
    )
    .expect("the host module is built");
    let params = ExecutionParams::with_external("env".into(), native);
    let instance = program.add_module("main", module, Some(&params.externals)).map_err(|e| {
        classify(
            Stage::Instantiate,
            match e {
                Error::Validation(_) => EngineFault::Validation,
                _ => EngineFault::Program,
            },
        )
    })?;
    let owner = interpreter.borrow_mut().begin_call(context);
    let outcome = instance.execute_export("main", params.clone());
    let verdict = interpreter.borrow_mut().end_call(owner);
    verdict.map_err(ExecutionError::ContractViolation)?;
    outcome.map(|_| ()).map_err(|_| classify(Stage::Run, EngineFault::Trap))
}

fn artifact(blocks: Vec<Vec<OpCode>>) -> Vec<u8> {
    let f = Function::from_basic_blocks(blocks.into_iter().map(BasicBlock::from_opcodes).collect());
    compile_function(&f).expect("the function compiles")
}

#[test]
fn callbacks_reach_the_context_of_the_running_call() {
    let first = Context::new();
    let second = Context::new();
    first.globals.borrow_mut()[1] = 40;
    second.globals.borrow_mut()[1] = 100;
    let interpreter = RefCell::new(Interpreter::new());
    let id = interpreter.borrow_mut().load_module(artifact(vec![vec![
        OpCode::LoadGlobal(1, 1),
        OpCode::SIConst64(2, 2),
        OpCode::SIAdd(1, 2),
        OpCode::StoreGlobal(0, 0),
        OpCode::Return,
    ]]));
    assert_eq!(execute(&interpreter, id, &first), Ok(()));
    assert_eq!(execute(&interpreter, id, &second), Ok(()));
    assert_eq!(first.globals.borrow()[0], 42);
    assert_eq!(second.globals.borrow()[0], 102);
    assert_eq!(interpreter.borrow().bridge_executor.depth(), 0);
}

#[test]
fn trap_is_reported_and_the_call_scope_is_closed() {
    let context = Context::new();
    let interpreter = RefCell::new(Interpreter::new());
    let id = interpreter.borrow_mut().load_module(artifact(vec![vec![
        OpCode::SIConst64(1, 1),
        OpCode::StoreGlobal(0, 1),
        OpCode::Branch(9),
    ]]));
    assert_eq!(execute(&interpreter, id, &context), Err(ExecutionError::ExecutionTrap));
    assert_eq!(context.globals.borrow()[0], 1);
    assert_eq!(interpreter.borrow().bridge_executor.depth(), 0);
}

#[test]
fn global_that_the_context_lacks_traps() {
    let context = Context::new();
    let interpreter = RefCell::new(Interpreter::new());
    let id = interpreter.borrow_mut().load_module(artifact(vec![vec![
        OpCode::SIConst64(1, 3),
        OpCode::StoreGlobal(15, 1),
        OpCode::StoreGlobal(16, 1),
        OpCode::Return,
    ]]));
    assert_eq!(execute(&interpreter, id, &context), Err(ExecutionError::ExecutionTrap));
    assert_eq!(context.globals.borrow()[15], 3);
}

#[test]
fn bytes_that_are_no_module_fail_to_load() {
    let context = Context::new();
    let interpreter = RefCell::new(Interpreter::new());
    let id = interpreter.borrow_mut().load_module(vec![1, 2, 3, 4, 5, 6, 7, 8, 9]);
    assert_eq!(execute(&interpreter, id, &context), Err(ExecutionError::LoadFailure));
}
