use tiny_wasm::binary::instruction::Instruction;
use tiny_wasm::binary::types::ValueType;
use tiny_wasm::execution::error::{ExecError, RuntimeError};
use tiny_wasm::execution::runtime::{stack_unwind, Frame, Runtime};
use tiny_wasm::execution::store::{FuncInst, Store};
use tiny_wasm::execution::value::Value;
use tiny_wasm::binary::module::{DecodeError, Module};

const FUNC_ADD_WAT: &str = "(module
  (func (param i32 i32) (result i32)
    (local.get 0)
    (local.get 1)
    i32.add
  )
)
";

fn runtime_of(wat_text: &str) -> Runtime {
    let wasm = wat::parse_str(wat_text).unwrap();
    Runtime::instantiate(&wasm).unwrap()
}

#[test]
fn call_i32_add() {
    let mut runtime = runtime_of(FUNC_ADD_WAT);
    assert_eq!(runtime.call(0, vec![Value::I32(1), Value::I32(2)]), Ok(Some(Value::I32(3))));
    assert_eq!(runtime.call(0, vec![Value::I32(10), Value::I32(-7)]), Ok(Some(Value::I32(3))));
    assert!(runtime.stack.is_empty());
    assert!(runtime.call_stack.is_empty());
}

#[test]
fn call_i32_add_wraps_around() {
    let mut runtime = runtime_of(FUNC_ADD_WAT);
    assert_eq!(
        runtime.call(0, vec![Value::I32(i32::MAX), Value::I32(1)]),
        Ok(Some(Value::I32(i32::MIN)))
    );
}

#[test]
fn call_keeps_the_stack_below_the_arguments() {
    let mut runtime = runtime_of(FUNC_ADD_WAT);
    runtime.stack.push(Value::I64(9));
    assert_eq!(runtime.call(0, vec![Value::I32(4), Value::I32(5)]), Ok(Some(Value::I32(9))));
    assert_eq!(runtime.stack, vec![Value::I64(9)]);
    assert_eq!(runtime.store.funcs.len(), 1);
}

#[test]
fn call_missing_function_changes_nothing() {
    let mut runtime = runtime_of(FUNC_ADD_WAT);
    assert_eq!(runtime.call(1, vec![Value::I32(1)]), Err(RuntimeError::FuncNotFound));
    assert!(runtime.stack.is_empty());
}

#[test]
fn call_function_without_results_gives_none() {
    let mut runtime = runtime_of("(module (func (param i32) (local i64) local.get 1 local.get 0))");
    assert_eq!(runtime.call(0, vec![Value::I32(1)]), Ok(None));
    // the values pushed by the body stay under the frame's stack pointer cut: none remain
    assert!(runtime.stack.is_empty());
}

#[test]
fn add_of_mismatched_types_fails_and_clears_the_stacks() {
    let mut runtime = runtime_of(
        "(module (func (param i32 i64) (result i32) local.get 0 local.get 1 i32.add))",
    );
    runtime.stack.push(Value::I32(7));
    assert_eq!(
        runtime.call(0, vec![Value::I32(1), Value::I64(2)]),
        Err(RuntimeError::Execution(ExecError::TypeMismatch))
    );
    assert!(runtime.stack.is_empty());
    assert!(runtime.call_stack.is_empty());
}

#[test]
fn add_on_empty_stack_fails() {
    let mut runtime = runtime_of("(module (func (result i32) i32.add))");
    assert_eq!(runtime.call(0, vec![]), Err(RuntimeError::Execution(ExecError::StackEmpty)));
}

#[test]
fn missing_local_fails() {
    let mut runtime = runtime_of("(module (func (param i32) (result i32) local.get 3))");
    assert_eq!(
        runtime.call(0, vec![Value::I32(1)]),
        Err(RuntimeError::Execution(ExecError::LocalNotFound))
    );
}

#[test]
fn end_without_result_value_fails() {
    let mut runtime = runtime_of("(module (func (result i32)))");
    assert_eq!(
        runtime.call(0, vec![]),
        Err(RuntimeError::Execution(ExecError::ReturnValueNotFound))
    );
}

#[test]
fn body_without_end_and_no_result_value_fails() {
    // a body that holds no `end`: the frame runs past its instructions
    let wasm = [
        0x00, 0x61, 0x73, 0x6d, 1, 0, 0, 0, // preamble
        0x01, 0x05, 0x01, 0x60, 0x00, 0x01, 0x7f, // type: [] -> [i32]
        0x03, 0x02, 0x01, 0x00, // function: type 0
        0x0a, 0x03, 0x01, 0x01, 0x00, // code: no locals, no instructions
    ];
    let mut runtime = Runtime::instantiate(&wasm).unwrap();
    assert_eq!(runtime.call(0, vec![]), Err(RuntimeError::ReturnValuesNotFound));
    assert_eq!(runtime.call_stack.len(), 1);
    assert_eq!(runtime.call_stack[0].pc, 0);
}

#[test]
fn locals_start_at_zero() {
    let mut runtime = runtime_of("(module (func (result i64) (local i32 i64) local.get 1))");
    assert_eq!(runtime.call(0, vec![]), Ok(Some(Value::I64(0))));
}

#[test]
fn store_expands_local_declarations() {
    let wasm = wat::parse_str("(module (func (local i32) (local i64 i64)))").unwrap();
    let store = Store::new(Module::new(&wasm).unwrap()).unwrap();
    assert_eq!(store.funcs.len(), 1);
    match &store.funcs[0] {
        FuncInst::Internal(f) => {
            assert_eq!(f.code.locals, vec![ValueType::I32, ValueType::I64, ValueType::I64]);
            assert_eq!(f.code.body, vec![Instruction::End]);
            assert!(f.func_type.params.is_empty());
        }
    }
}

#[test]
fn store_without_type_section_fails() {
    let wasm = [
        0x00, 0x61, 0x73, 0x6d, 1, 0, 0, 0,
        0x03, 0x02, 0x01, 0x00,
        0x0a, 0x04, 0x01, 0x02, 0x00, 0x0b,
    ];
    assert_eq!(Runtime::instantiate(&wasm).err(), Some(RuntimeError::TypeSectionNotFound));
}

#[test]
fn store_with_type_index_out_of_range_fails() {
    let wasm = [
        0x00, 0x61, 0x73, 0x6d, 1, 0, 0, 0,
        0x01, 0x04, 0x01, 0x60, 0x00, 0x00,
        0x03, 0x02, 0x01, 0x05,
        0x0a, 0x04, 0x01, 0x02, 0x00, 0x0b,
    ];
    assert_eq!(Runtime::instantiate(&wasm).err(), Some(RuntimeError::FuncTypeNotFound));
}

#[test]
fn store_pairs_bodies_with_type_indices_up_to_the_shorter() {
    // two type indices, one body: one function
    let wasm = [
        0x00, 0x61, 0x73, 0x6d, 1, 0, 0, 0,
        0x01, 0x04, 0x01, 0x60, 0x00, 0x00,
        0x03, 0x03, 0x02, 0x00, 0x00,
        0x0a, 0x04, 0x01, 0x02, 0x00, 0x0b,
    ];
    let runtime = Runtime::instantiate(&wasm).unwrap();
    assert_eq!(runtime.store.funcs.len(), 1);
}

#[test]
fn instantiate_reports_decode_errors() {
    assert_eq!(
        Runtime::instantiate(&[0, 1, 2]).err(),
        Some(RuntimeError::Decode(DecodeError::Malformed))
    );
}

#[test]
fn stack_unwind_keeps_the_result() {
    let mut stack = vec![Value::I32(1), Value::I32(2), Value::I32(3), Value::I32(4)];
    assert_eq!(stack_unwind(&mut stack, 1, 1), Ok(()));
    assert_eq!(stack, vec![Value::I32(1), Value::I32(4)]);
    let mut stack = vec![Value::I32(1), Value::I32(2)];
    assert_eq!(stack_unwind(&mut stack, 1, 0), Ok(()));
    assert_eq!(stack, vec![Value::I32(1)]);
    let mut stack: Vec<Value> = vec![];
    assert_eq!(stack_unwind(&mut stack, 0, 1), Err(ExecError::ReturnValueNotFound));
    assert!(stack.is_empty());
}

#[test]
fn execute_with_empty_call_stack_does_nothing() {
    let mut runtime = runtime_of(FUNC_ADD_WAT);
    assert_eq!(runtime.execute(), Ok(()));
}

#[test]
fn execute_runs_a_frame_pushed_by_hand() {
    let mut runtime = runtime_of(FUNC_ADD_WAT);
    runtime.call_stack.push(Frame {
        pc: -1,
        sp: 0,
        insts: vec![Instruction::LocalGet(0), Instruction::LocalGet(0), Instruction::I32Add, Instruction::End],
        arity: 1,
        locals: vec![Value::I64(21)],
    });
    assert_eq!(runtime.execute(), Ok(()));
    assert_eq!(runtime.stack, vec![Value::I64(42)]);
    assert!(runtime.call_stack.is_empty());
}

#[test]
fn cleanup_empties_both_stacks() {
    let mut runtime = runtime_of(FUNC_ADD_WAT);
    runtime.stack.push(Value::I32(1));
    runtime.call_stack.push(Frame::default());
    runtime.cleanup();
    assert!(runtime.stack.is_empty());
    assert!(runtime.call_stack.is_empty());
    assert_eq!(runtime.store.funcs.len(), 1);
}

#[test]
fn value_addition() {
    assert_eq!(Value::I32(2).try_add(Value::I32(3)), Some(Value::I32(5)));
    assert_eq!(Value::I64(i64::MAX).try_add(Value::I64(1)), Some(Value::I64(i64::MIN)));
    assert_eq!(Value::I32(2).try_add(Value::I64(3)), None);
}

#[test]
fn repeated_call_gives_the_same_result() {
    let mut runtime = runtime_of(FUNC_ADD_WAT);
    runtime.stack.push(Value::I32(100));
    let first = runtime.call(0, vec![Value::I32(20), Value::I32(22)]);
    assert_eq!(runtime.stack, vec![Value::I32(100)]);
    assert!(runtime.call_stack.is_empty());
    let second = runtime.call(0, vec![Value::I32(20), Value::I32(22)]);
    assert_eq!(first, Ok(Some(Value::I32(42))));
    assert_eq!(first, second);
    assert_eq!(runtime.stack, vec![Value::I32(100)]);
}

#[test]
fn well_typed_call_without_results_restores_the_stacks() {
    let mut runtime = runtime_of("(module (func (param i32 i64) (local i32)))");
    runtime.stack.push(Value::I64(5));
    assert_eq!(runtime.call(0, vec![Value::I32(1), Value::I64(2)]), Ok(None));
    assert_eq!(runtime.stack, vec![Value::I64(5)]);
    assert!(runtime.call_stack.is_empty());
}

#[test]
fn well_typed_call_with_two_results_gives_the_last() {
    let mut runtime = runtime_of("(module (func (param i32 i32) (result i32 i32) local.get 0 local.get 1))");
    assert_eq!(runtime.call(0, vec![Value::I32(1), Value::I32(2)]), Ok(Some(Value::I32(2))));
    assert!(runtime.stack.is_empty());
    assert!(runtime.call_stack.is_empty());
}

#[test]
fn call_adding_i64_values_restores_and_repeats() {
    let mut runtime = runtime_of(
        "(module (func (param i64 i64) (result i64) local.get 0 local.get 1 i32.add))",
    );
    runtime.stack.push(Value::I32(8));
    let first = runtime.call(0, vec![Value::I64(40), Value::I64(2)]);
    assert_eq!(first, Ok(Some(Value::I64(42))));
    assert_eq!(runtime.stack, vec![Value::I32(8)]);
    assert!(runtime.call_stack.is_empty());
    assert_eq!(runtime.call(0, vec![Value::I64(40), Value::I64(2)]), first);
    assert_eq!(runtime.stack, vec![Value::I32(8)]);
}

#[test]
fn call_leaving_extra_values_restores_and_repeats() {
    let mut runtime = runtime_of(
        "(module (func (param i32 i64) (result i32) local.get 1 local.get 0 local.get 0))",
    );
    let first = runtime.call(0, vec![Value::I32(3), Value::I64(4)]);
    assert_eq!(first, Ok(Some(Value::I32(3))));
    assert!(runtime.stack.is_empty());
    assert!(runtime.call_stack.is_empty());
    assert_eq!(runtime.call(0, vec![Value::I32(3), Value::I64(4)]), first);
    assert!(runtime.stack.is_empty());
}
