//! The execution bridge: what is decided around the engine that loads and
//! runs artifacts.
//!
//! The engine itself is not part of this library. The bridge keeps the table
//! of loaded modules, names the host callbacks that an artifact imports,
//! turns the engine's arguments into host calls, keeps the stack of context
//! handles of the calls that are running, and says which error a failure of
//! the engine amounts to.

use vstd::prelude::*;
use crate::artifact::ValueType;
use crate::provider::{artifact_imports, artifact_types, LOAD_GLOBAL_FN, STORE_GLOBAL_FN};
use crate::safe_context::{
    references_after, teardown_verdict, ContextHandle, ContextOwner, ContractViolation,
    GuardEvent,
};

verus! {

/// Why an artifact could not be loaded or did not run to its end.
#[derive(Clone, Copy, Debug, PartialEq, Eq, Structural)]
pub enum ExecutionError {
    /// The artifact did not parse or did not validate.
    LoadFailure,
    /// An import of the artifact is missing or has another signature.
    LinkFailure,
    /// The run ended in a trap.
    ExecutionTrap,
    /// The context owner was torn down while handles were out.
    ContractViolation(ContractViolation),
}

/// The step at which the engine failed.
#[derive(Clone, Copy, Debug, PartialEq, Eq, Structural)]
pub enum Stage {
    /// Reading the bytes of the artifact.
    Parse,
    /// Validating the module and resolving its imports.
    Instantiate,
    /// Running the entry point.
    Run,
}

/// The kind of failure that the engine reported.
#[derive(Clone, Copy, Debug, PartialEq, Eq, Structural)]
pub enum EngineFault {
    Program,
    Validation,
    Initialization,
    Function,
    Table,
    Memory,
    Variable,
    Global,
    Local,
    Stack,
    Value,
    Interpreter,
    Native,
    Trap,
    User,
}

/// The error that a failure of the engine amounts to: an artifact that does
/// not parse or validate failed to load, any other failure to instantiate it
/// is a failure to link, and whatever stops a run is a trap.
pub open spec fn classification(stage: Stage, fault: EngineFault) -> ExecutionError {
    match stage {
        Stage::Parse => ExecutionError::LoadFailure,
        Stage::Instantiate => if fault == EngineFault::Validation {
            ExecutionError::LoadFailure
        } else {
            ExecutionError::LinkFailure
        },
        Stage::Run => ExecutionError::ExecutionTrap,
    }
}

pub fn classify(stage: Stage, fault: EngineFault) -> (error: ExecutionError)
    ensures
        error == classification(stage, fault),
{
    match stage {
        Stage::Parse => ExecutionError::LoadFailure,
        Stage::Instantiate => match fault {
            EngineFault::Validation => ExecutionError::LoadFailure,
            _ => ExecutionError::LinkFailure,
        },
        Stage::Run => ExecutionError::ExecutionTrap,
    }
}

/// A callback that the host offers to compiled code.
#[derive(Clone, Copy, Debug, PartialEq, Eq, Structural)]
pub enum HostFunction {
    StoreGlobal,
    LoadGlobal,
}

/// The callback that an import of the given name is bound to.
pub open spec fn host_function_named(name: Seq<char>) -> Option<HostFunction> {
    if name == "store_global"@ {
        Some(HostFunction::StoreGlobal)
    } else if name == "load_global"@ {
        Some(HostFunction::LoadGlobal)
    } else {
        None
    }
}

impl HostFunction {
    /// The name that the artifact imports the callback by.
    pub open spec fn spec_name(self) -> Seq<char> {
        match self {
            HostFunction::StoreGlobal => "store_global"@,
            HostFunction::LoadGlobal => "load_global"@,
        }
    }

    /// The parameter types of the callback.
    pub open spec fn spec_params(self) -> Seq<ValueType> {
        match self {
            HostFunction::StoreGlobal => seq![ValueType::I32, ValueType::I64],
            HostFunction::LoadGlobal => seq![ValueType::I32],
        }
    }

    /// The result type of the callback.
    pub open spec fn spec_result(self) -> Option<ValueType> {
        match self {
            HostFunction::StoreGlobal => None,
            HostFunction::LoadGlobal => Some(ValueType::I64),
        }
    }

    pub fn name(self) -> (name: String)
        ensures
            name@ == self.spec_name(),
    {
        match self {
            HostFunction::StoreGlobal => "store_global".to_owned(),
            HostFunction::LoadGlobal => "load_global".to_owned(),
        }
    }

    pub fn params(self) -> (params: Vec<ValueType>)
        ensures
            params@ == self.spec_params(),
    {
        match self {
            HostFunction::StoreGlobal => vec![ValueType::I32, ValueType::I64],
            HostFunction::LoadGlobal => vec![ValueType::I32],
        }
    }

    pub fn result(self) -> (result: Option<ValueType>)
        ensures
            result == self.spec_result(),
    {
        match self {
            HostFunction::StoreGlobal => None,
            HostFunction::LoadGlobal => Some(ValueType::I64),
        }
    }
}

/// The callback that an import of the given name is bound to, if there is one.
pub fn host_function(name: &str) -> (function: Option<HostFunction>)
    ensures
        function == host_function_named(name@),
{
    let name = name.to_owned();
    if name == "store_global".to_owned() {
        Some(HostFunction::StoreGlobal)
    } else if name == "load_global".to_owned() {
        Some(HostFunction::LoadGlobal)
    } else {
        None
    }
}

/// A value that the engine hands to a callback or takes from it.
#[derive(Clone, Copy, Debug, PartialEq, Eq, Structural)]
pub enum HostValue {
    I32(i32),
    I64(i64),
}

/// A call of a host callback with its arguments: the index of a global, and
/// for a store the value.
#[derive(Clone, Copy, Debug, PartialEq, Eq, Structural)]
pub enum HostCall {
    StoreGlobal { index: u32, value: u64 },
    LoadGlobal { index: u32 },
}

/// The unsigned value with the bit pattern of a signed 32-bit value.
pub open spec fn unsigned32(value: i32) -> u32 {
    if value >= 0 {
        value as u32
    } else {
        (value + 0x1_0000_0000) as u32
    }
}

/// The unsigned value with the bit pattern of a signed 64-bit value.
pub open spec fn unsigned64(value: i64) -> u64 {
    if value >= 0 {
        value as u64
    } else {
        (value + 0x1_0000_0000_0000_0000) as u64
    }
}

/// The signed value with the bit pattern of an unsigned 64-bit value.
pub open spec fn signed64(value: u64) -> i64 {
    if value <= i64::MAX {
        value as i64
    } else {
        (value - 0x1_0000_0000_0000_0000) as i64
    }
}

pub fn to_unsigned32(value: i32) -> (unsigned: u32)
    ensures
        unsigned == unsigned32(value),
{
    if value >= 0 {
        value as u32
    } else {
        (value as i64 + 0x1_0000_0000) as u32
    }
}

pub fn to_unsigned64(value: i64) -> (unsigned: u64)
    ensures
        unsigned == unsigned64(value),
{
    if value >= 0 {
        value as u64
    } else {
        (value as i128 + 0x1_0000_0000_0000_0000) as u64
    }
}

pub fn to_signed64(value: u64) -> (signed: i64)
    ensures
        signed == signed64(value),
        unsigned64(signed) == value,
{
    if value <= 0x7fff_ffff_ffff_ffff {
        value as i64
    } else {
        (value as i128 - 0x1_0000_0000_0000_0000) as i64
    }
}

/// The host call that the arguments, in the order of the parameters, make of
/// a callback; a link failure where they do not have the callback's signature.
pub open spec fn host_call_of(function: HostFunction, args: Seq<HostValue>) -> Result<
    HostCall,
    ExecutionError,
> {
    match function {
        HostFunction::StoreGlobal => if args.len() == 2 && args[0] is I32 && args[1] is I64 {
            Ok(
                HostCall::StoreGlobal {
                    index: unsigned32(args[0]->I32_0),
                    value: unsigned64(args[1]->I64_0),
                },
            )
        } else {
            Err(ExecutionError::LinkFailure)
        },
        HostFunction::LoadGlobal => if args.len() == 1 && args[0] is I32 {
            Ok(HostCall::LoadGlobal { index: unsigned32(args[0]->I32_0) })
        } else {
            Err(ExecutionError::LinkFailure)
        },
    }
}

pub fn host_call(function: HostFunction, args: &Vec<HostValue>) -> (call: Result<
    HostCall,
    ExecutionError,
>)
    ensures
        call == host_call_of(function, args@),
{
    match function {
        HostFunction::StoreGlobal => {
            if args.len() != 2 {
                return Err(ExecutionError::LinkFailure);
            }
            match (args[0], args[1]) {
                (HostValue::I32(index), HostValue::I64(value)) => Ok(
                    HostCall::StoreGlobal {
                        index: to_unsigned32(index),
                        value: to_unsigned64(value),
                    },
                ),
                _ => Err(ExecutionError::LinkFailure),
            }
        },
        HostFunction::LoadGlobal => {
            if args.len() != 1 {
                return Err(ExecutionError::LinkFailure);
            }
            match args[0] {
                HostValue::I32(index) => Ok(HostCall::LoadGlobal { index: to_unsigned32(index) }),
                _ => Err(ExecutionError::LinkFailure),
            }
        },
    }
}

/// Whether the host has a global of the given index, where it has `globals`
/// of them. A callback that is handed any other index traps.
pub fn global_in_range(index: u32, globals: usize) -> (ok: bool)
    ensures
        ok == (index < globals),
{
    (index as usize) < globals
}

/// The stack of context handles of the calls that are running, the innermost
/// call on top. Host callbacks read the context of the current call from it.
pub struct BridgeExecutor<'a, C> {
    pub context: Vec<ContextHandle<'a, C>>,
}

impl<'a, C> BridgeExecutor<'a, C> {
    pub fn new() -> (bridge: BridgeExecutor<'a, C>)
        ensures
            bridge.context@.len() == 0,
    {
        BridgeExecutor { context: Vec::new() }
    }

    /// Number of calls that are running.
    pub fn depth(&self) -> (depth: usize)
        ensures
            depth == self.context@.len(),
    {
        self.context.len()
    }

    /// Makes the handle that of the current call.
    pub fn push(&mut self, handle: ContextHandle<'a, C>)
        ensures
            final(self).context@ == old(self).context@.push(handle),
    {
        self.context.push(handle);
    }

    /// Takes the handle of the current call off the stack, if a call is running.
    pub fn pop(&mut self) -> (handle: Option<ContextHandle<'a, C>>)
        ensures
            match handle {
                Some(h) => old(self).context@.len() > 0 && h == old(self).context@.last()
                    && final(self).context@ == old(self).context@.drop_last(),
                None => old(self).context@.len() == 0 && final(self).context@ == old(
                    self,
                ).context@,
            },
    {
        self.context.pop()
    }

    /// The execution context of the current call, if a call is running.
    pub fn current(&self) -> (context: Option<&'a C>)
        ensures
            match context {
                Some(c) => self.context@.len() > 0 && c == self.context@.last().context(),
                None => self.context@.len() == 0,
            },
    {
        let depth = self.context.len();
        if depth == 0 {
            None
        } else {
            Some(self.context[depth - 1].get())
        }
    }
}

/// The loaded modules, each known by the id that loading it gave, and the
/// bridge to the contexts of the running calls.
pub struct Interpreter<'a, C, M> {
    pub modules: Vec<M>,
    pub bridge_executor: BridgeExecutor<'a, C>,
}

impl<'a, C, M> Interpreter<'a, C, M> {
    pub fn new() -> (interpreter: Interpreter<'a, C, M>)
        ensures
            interpreter.modules@.len() == 0,
            interpreter.bridge_executor.context@.len() == 0,
    {
        Interpreter { modules: Vec::new(), bridge_executor: BridgeExecutor::new() }
    }

    /// Takes a module that the engine has loaded into the table and gives the
    /// id that it is run by: the next free one.
    pub fn load_module(&mut self, module: M) -> (id: usize)
        ensures
            id == old(self).modules@.len(),
            final(self).modules@ == old(self).modules@.push(module),
            final(self).bridge_executor == old(self).bridge_executor,
    {
        self.modules.push(module);
        self.modules.len() - 1
    }

    /// The module of the given id, if one was loaded under it.
    pub fn module(&self, id: usize) -> (module: Option<&M>)
        ensures
            match module {
                Some(m) => id < self.modules@.len() && *m == self.modules@[id as int],
                None => id >= self.modules@.len(),
            },
    {
        if id < self.modules.len() {
            Some(&self.modules[id])
        } else {
            None
        }
    }

    /// Opens the scope of one call: makes the owner of the caller's context and
    /// puts a handle to it on the bridge, where the callbacks find it.
    pub fn begin_call(&mut self, ctx: &'a C) -> (owner: ContextOwner<'a, C>)
        ensures
            owner.context() == ctx,
            owner.history() == seq![GuardEvent::Issue],
            owner.references() == 2,
            final(self).modules == old(self).modules,
            final(self).bridge_executor.context@.len() == old(self).bridge_executor.context@.len()
                + 1,
            final(self).bridge_executor.context@.drop_last() == old(self).bridge_executor.context@,
            final(self).bridge_executor.context@.last().context() == ctx,
    {
        let mut owner = ContextOwner::new(ctx);
        let handle = owner.handle();
        self.bridge_executor.push(handle);
        assert(self.bridge_executor.context@.drop_last() =~= old(self).bridge_executor.context@);
        assert(owner.history() =~= seq![GuardEvent::Issue]);
        owner
    }

    /// Closes the scope of one call after the run has returned or trapped:
    /// takes the call's handle off the bridge, gives it back to the owner and
    /// tears the owner down. The handle on top of the bridge has to be one of
    /// this owner: calls end in the reverse of the order they began in. The
    /// verdict is a violation exactly when handles of the owner are still out
    /// after that.
    pub fn end_call(&mut self, owner: ContextOwner<'a, C>) -> (verdict: Result<
        (),
        ContractViolation,
    >)
        requires
            old(self).bridge_executor.context@.len() > 0 ==> old(
                self,
            ).bridge_executor.context@.last().context() == owner.context(),
        ensures
            final(self).modules == old(self).modules,
            old(self).bridge_executor.context@.len() == 0 ==> final(self).bridge_executor.context@
                == old(self).bridge_executor.context@,
            old(self).bridge_executor.context@.len() > 0 ==> final(self).bridge_executor.context@
                == old(self).bridge_executor.context@.drop_last(),
            verdict == teardown_verdict(
                if old(self).bridge_executor.context@.len() > 0 && owner.references() > 1 {
                    owner.references() - 1
                } else {
                    owner.references()
                },
            ),
    {
        let mut owner = owner;
        match self.bridge_executor.pop() {
            Some(handle) => {
                if owner.reference_count() > 1 {
                    owner.release(handle);
                }
            },
            None => {},
        }
        owner.teardown()
    }
}

/// A call that is opened and closed again, with nothing in between that kept
/// a handle, leaves the bridge as it was and ends without a violation.
pub proof fn law_call_scope_is_balanced()
    ensures
        teardown_verdict(references_after(seq![GuardEvent::Issue, GuardEvent::Release])) is Ok,
        teardown_verdict(references_after(seq![GuardEvent::Issue]) - 1) is Ok,
{
    reveal_with_fuel(references_after, 3);
    assert(seq![GuardEvent::Issue, GuardEvent::Release].drop_last() =~= seq![GuardEvent::Issue]);
    assert(seq![GuardEvent::Issue].drop_last() =~= Seq::<GuardEvent>::empty());
}

/// The callbacks are what the artifact imports: each import of an artifact is
/// bound, by its name, to a callback with the signature that the artifact
/// declares for the import, and the function indices that compiled code calls
/// the host by are the positions of the two imports.
pub proof fn law_imports_match_callbacks()
    ensures
        forall|i: int|
            0 <= i < artifact_imports().len() ==> {
                let import = #[trigger] artifact_imports()[i];
                let signature = artifact_types()[import.type_index as int];
                &&& import.module == "env"@
                &&& host_function_named(import.field) matches Some(function)
                &&& function.spec_params() == signature.params
                &&& function.spec_result() == signature.result
            },
        host_function_named(artifact_imports()[STORE_GLOBAL_FN as int].field) == Some(
            HostFunction::StoreGlobal,
        ),
        host_function_named(artifact_imports()[LOAD_GLOBAL_FN as int].field) == Some(
            HostFunction::LoadGlobal,
        ),
{
    reveal_strlit("store_global");
    reveal_strlit("load_global");
    assert("store_global"@.len() != "load_global"@.len());
    assert forall|i: int| 0 <= i < artifact_imports().len() implies {
        let import = #[trigger] artifact_imports()[i];
        let signature = artifact_types()[import.type_index as int];
        &&& import.module == "env"@
        &&& host_function_named(import.field) matches Some(function)
        &&& function.spec_params() == signature.params
        &&& function.spec_result() == signature.result
    } by {
        if i == 0 {
            assert(artifact_types()[0].params =~= HostFunction::StoreGlobal.spec_params());
        } else {
            assert(artifact_types()[1].params =~= HostFunction::LoadGlobal.spec_params());
        }
    }
}

} // verus!
