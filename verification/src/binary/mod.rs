//! The WebAssembly binary format: its types and the decoder.

pub mod instruction;
pub mod leb128;
pub mod opcode;
pub mod section;
pub mod types;
pub mod module;
