//! A just-in-time code generator that lowers a control-flow graph of bytecode
//! basic blocks into structured loop, block and branch-table code, together
//! with the guard that lets the generated code reach a short-lived host
//! execution context.

pub mod artifact;
pub mod bytecode;
pub mod correctness;
pub mod encoder;
pub mod interpreter;
pub mod lowering;
pub mod provider;
pub mod safe_context;
pub mod semantics;
pub mod target;
