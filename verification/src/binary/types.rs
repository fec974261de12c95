//! Value types, function types and local declarations.

use vstd::prelude::*;

verus! {

/// A number type of WebAssembly.
#[derive(Debug, Clone, Copy, PartialEq, Eq, Structural)]
pub enum ValueType {
    I32,
    I64,
}

/// The value type that a byte of the binary format stands for: `0x7f` is `i32`, `0x7e` is `i64`.
pub open spec fn spec_value_type(byte: u8) -> Option<ValueType> {
    if byte == 0x7f {
        Some(ValueType::I32)
    } else if byte == 0x7e {
        Some(ValueType::I64)
    } else {
        None
    }
}

impl ValueType {
    /// The value type that `byte` encodes, or `None` for a byte that encodes none.
    pub fn from_byte(byte: u8) -> (res: Option<ValueType>)
        ensures
            res == spec_value_type(byte),
    {
        if byte == 0x7f {
            Some(ValueType::I32)
        } else if byte == 0x7e {
            Some(ValueType::I64)
        } else {
            None
        }
    }
}

/// The signature of a function: the types of its parameters and of its results.
#[derive(Debug, PartialEq, Eq)]
pub struct FuncType {
    pub params: Vec<ValueType>,
    pub results: Vec<ValueType>,
}

/// What a `FuncType` holds.
pub struct FuncTypeView {
    pub params: Seq<ValueType>,
    pub results: Seq<ValueType>,
}

impl View for FuncType {
    type V = FuncTypeView;

    open spec fn view(&self) -> FuncTypeView {
        FuncTypeView { params: self.params@, results: self.results@ }
    }
}

impl Default for FuncType {
    fn default() -> (res: Self)
        ensures
            res@ == (FuncTypeView { params: Seq::empty(), results: Seq::empty() }),
    {
        let res = FuncType { params: Vec::new(), results: Vec::new() };
        assert(res@.params == Seq::<ValueType>::empty());
        assert(res@.results == Seq::<ValueType>::empty());
        res
    }
}

/// Copies a list of value types.
pub(crate) fn copy_value_types(v: &Vec<ValueType>) -> (res: Vec<ValueType>)
    ensures
        res@ == v@,
{
    let mut res: Vec<ValueType> = Vec::new();
    for i in 0..v.len()
        invariant
            res@ == v@.take(i as int),
    {
        res.push(v[i]);
        assert(v@.take(i + 1) == v@.take(i as int).push(v@[i as int]));
    }
    assert(v@.take(v.len() as int) == v@);
    res
}

impl Clone for FuncType {
    fn clone(&self) -> (res: Self)
        ensures
            res@ == self@,
    {
        FuncType { params: copy_value_types(&self.params), results: copy_value_types(&self.results) }
    }
}

/// A declaration of `type_count` locals of one value type.
#[derive(Debug, Clone, Copy, PartialEq, Eq, Structural)]
pub struct FunctionLocal {
    pub type_count: u32,
    pub value_type: ValueType,
}

} // verus!
