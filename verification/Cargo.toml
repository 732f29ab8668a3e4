[package]
name = "wasm_jit"
version = "0.1.0"
edition = "2021"

[dependencies]
parity-wasm = "0.22"
hexagon = "0.1.2"
