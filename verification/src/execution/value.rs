//! Run-time values.

use vstd::prelude::*;

verus! {

/// A value on the operand stack or in a local.
#[derive(Debug, Clone, Copy, PartialEq, Eq, Structural)]
pub enum Value {
    I32(i32),
    I64(i64),
}

/// The sum of two values of one type, wrapping around as WebAssembly's `add` does; `None` when
/// the types differ.
pub open spec fn spec_add(left: Value, right: Value) -> Option<Value> {
    match (left, right) {
        (Value::I32(l), Value::I32(r)) => Some(Value::I32(vstd::wrapping::i32_specs::wrapping_add(l, r))),
        (Value::I64(l), Value::I64(r)) => Some(Value::I64(vstd::wrapping::i64_specs::wrapping_add(l, r))),
        _ => None,
    }
}

impl Value {
    /// Adds two values of one type, wrapping around on overflow; `None` when the types differ.
    pub fn try_add(self, rhs: Value) -> (res: Option<Value>)
        ensures
            res == spec_add(self, rhs),
    {
        match (self, rhs) {
            (Value::I32(l), Value::I32(r)) => Some(Value::I32(l.wrapping_add(r))),
            (Value::I64(l), Value::I64(r)) => Some(Value::I64(l.wrapping_add(r))),
            _ => None,
        }
    }
}

} // verus!
