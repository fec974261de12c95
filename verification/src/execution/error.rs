//! Why instantiating a module or calling a function fails.

use vstd::prelude::*;
use crate::binary::module::DecodeError;

verus! {

/// Why running instructions stops early.
#[derive(Debug, Clone, Copy, PartialEq, Eq, Structural)]
pub enum ExecError {
    /// `i32.add` finds fewer than two values on the stack.
    StackEmpty,
    /// `local.get` names a local that the frame does not have.
    LocalNotFound,
    /// `i32.add` finds two values of different types.
    TypeMismatch,
    /// A function with results ends while the stack is empty.
    ReturnValueNotFound,
}

/// Why instantiating a module or calling a function fails.
#[derive(Debug, Clone, Copy, PartialEq, Eq, Structural)]
pub enum RuntimeError {
    /// The bytes are not a module.
    Decode(DecodeError),
    /// A function body is present but the module has no type section.
    TypeSectionNotFound,
    /// A function's type index is past the end of the type section.
    FuncTypeNotFound,
    /// The function index is past the end of the store.
    FuncNotFound,
    /// Running the function's instructions failed.
    Execution(ExecError),
    /// The function has results but the stack is empty when it returns.
    ReturnValuesNotFound,
}

} // verus!
