//! The runtime: values, the store of function instances, and the interpreter.

pub mod error;
pub mod properties;
pub mod runtime;
pub mod store;
pub mod value;
