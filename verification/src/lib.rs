//! A just-in-time compiler from a small WebAssembly subset to x86-64 machine
//! code: a typed instruction encoder, a single-pass code generator, and the
//! decisions of the runtime that drives them.

pub mod assembler;
pub mod compiler;
pub mod runtime;
pub mod wasm;
