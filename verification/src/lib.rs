//! A small WebAssembly runtime: a decoder for the binary format and an interpreter for the
//! instructions it knows (`local.get`, `i32.add`, `end`).

pub mod binary;
pub mod execution;
