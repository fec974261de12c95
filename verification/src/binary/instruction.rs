//! The instructions that the runtime knows.

use vstd::prelude::*;

verus! {

/// An instruction of a function body.
#[derive(Debug, Clone, Copy, PartialEq, Eq, Structural)]
pub enum Instruction {
    End,
    LocalGet(u32),
    I32Add,
}

/// Copies a list of instructions.
pub(crate) fn copy_instructions(v: &Vec<Instruction>) -> (res: Vec<Instruction>)
    ensures
        res@ == v@,
{
    let mut res: Vec<Instruction> = Vec::new();
    for i in 0..v.len()
        invariant
            res@ == v@.take(i as int),
    {
        res.push(v[i]);
        assert(v@.take(i + 1) == v@.take(i as int).push(v@[i as int]));
    }
    assert(v@.take(v.len() as int) == v@);
    res
}

} // verus!
