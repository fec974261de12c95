//! Section codes and the decoded body of a function.

use vstd::prelude::*;
use crate::binary::instruction::Instruction;
use crate::binary::types::FunctionLocal;

verus! {

/// The kind of a section, given by its first byte.
#[derive(Debug, Clone, Copy, PartialEq, Eq, Structural)]
pub enum SectionCode {
    Type,
    Import,
    Function,
    Memory,
    Export,
    Code,
    Data,
}

/// The section kind of a byte: 1 type, 2 import, 3 function, 5 memory, 7 export, 10 code, 11 data.
pub open spec fn spec_section_code(byte: u8) -> Option<SectionCode> {
    if byte == 0x01 {
        Some(SectionCode::Type)
    } else if byte == 0x02 {
        Some(SectionCode::Import)
    } else if byte == 0x03 {
        Some(SectionCode::Function)
    } else if byte == 0x05 {
        Some(SectionCode::Memory)
    } else if byte == 0x07 {
        Some(SectionCode::Export)
    } else if byte == 0x0a {
        Some(SectionCode::Code)
    } else if byte == 0x0b {
        Some(SectionCode::Data)
    } else {
        None
    }
}

impl SectionCode {
    /// The section kind of `byte`, or `None` for a byte that is none of the known ones.
    pub fn from_u8(byte: u8) -> (res: Option<SectionCode>)
        ensures
            res == spec_section_code(byte),
    {
        if byte == 0x01 {
            Some(SectionCode::Type)
        } else if byte == 0x02 {
            Some(SectionCode::Import)
        } else if byte == 0x03 {
            Some(SectionCode::Function)
        } else if byte == 0x05 {
            Some(SectionCode::Memory)
        } else if byte == 0x07 {
            Some(SectionCode::Export)
        } else if byte == 0x0a {
            Some(SectionCode::Code)
        } else if byte == 0x0b {
            Some(SectionCode::Data)
        } else {
            None
        }
    }
}

/// The body of a function: its local declarations and its instructions.
#[derive(Debug, PartialEq, Eq)]
pub struct Function {
    pub locals: Vec<FunctionLocal>,
    pub code: Vec<Instruction>,
}

/// What a `Function` holds.
pub struct FunctionView {
    pub locals: Seq<FunctionLocal>,
    pub code: Seq<Instruction>,
}

impl View for Function {
    type V = FunctionView;

    open spec fn view(&self) -> FunctionView {
        FunctionView { locals: self.locals@, code: self.code@ }
    }
}

impl Default for Function {
    fn default() -> (res: Self)
        ensures
            res@ == (FunctionView { locals: Seq::empty(), code: Seq::empty() }),
    {
        let res = Function { locals: Vec::new(), code: Vec::new() };
        assert(res@.locals == Seq::<FunctionLocal>::empty());
        assert(res@.code == Seq::<Instruction>::empty());
        res
    }
}

/// Copies a list of local declarations.
fn copy_locals(v: &Vec<FunctionLocal>) -> (res: Vec<FunctionLocal>)
    ensures
        res@ == v@,
{
    let mut res: Vec<FunctionLocal> = Vec::new();
    for i in 0..v.len()
        invariant
            res@ == v@.take(i as int),
    {
        res.push(v[i]);
        assert(v@.take(i + 1) == v@.take(i as int).push(v@[i as int]));
    }
    assert(v@.take(v.len() as int) == v@);
    res
}

impl Clone for Function {
    fn clone(&self) -> (res: Self)
        ensures
            res@ == self@,
    {
        Function {
            locals: copy_locals(&self.locals),
            code: crate::binary::instruction::copy_instructions(&self.code),
        }
    }
}

} // verus!
