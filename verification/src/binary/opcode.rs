//! The opcodes of the instructions that the runtime knows.

use vstd::prelude::*;

verus! {

/// The first byte of an instruction.
#[derive(Debug, Clone, Copy, PartialEq, Eq, Structural)]
pub enum Opcode {
    End,
    LocalGet,
    I32Add,
}

/// The opcode that a byte stands for: `0x0b` is `end`, `0x20` is `local.get`, `0x6a` is `i32.add`.
pub open spec fn spec_opcode(byte: u8) -> Option<Opcode> {
    if byte == 0x0b {
        Some(Opcode::End)
    } else if byte == 0x20 {
        Some(Opcode::LocalGet)
    } else if byte == 0x6a {
        Some(Opcode::I32Add)
    } else {
        None
    }
}

impl Opcode {
    /// The opcode of `byte`, or `None` for a byte that is none of the known ones.
    pub fn from_u8(byte: u8) -> (res: Option<Opcode>)
        ensures
            res == spec_opcode(byte),
    {
        if byte == 0x0b {
            Some(Opcode::End)
        } else if byte == 0x20 {
            Some(Opcode::LocalGet)
        } else if byte == 0x6a {
            Some(Opcode::I32Add)
        } else {
            None
        }
    }
}

} // verus!
