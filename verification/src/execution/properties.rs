//! Properties of calls that hold across the interpreter's functions.

use vstd::prelude::*;
use crate::binary::instruction::Instruction;
use crate::binary::types::ValueType;
use crate::execution::error::RuntimeError;
use crate::execution::runtime::{
    call_aborts, invoke_frame, spec_stack_unwind, unwind_aborts, spec_call, spec_execute, zero_value, FrameView, Outcome, RuntimeView,
};
use crate::execution::store::InternalFuncInstView;
use crate::execution::value::{spec_add, Value};

verus! {

/// `f` is the function `(param i32 i32) (result i32) local.get 0 local.get 1 i32.add`.
pub open spec fn is_i32_add_function(f: InternalFuncInstView) -> bool {
    &&& f.func_type.params == seq![ValueType::I32, ValueType::I32]
    &&& f.func_type.results == seq![ValueType::I32]
    &&& f.code.locals.len() == 0
    &&& f.code.body == seq![
        Instruction::LocalGet(0),
        Instruction::LocalGet(1),
        Instruction::I32Add,
        Instruction::End,
    ]
}

/// Calling the function that adds its two `i32` parameters, from an empty call stack, gives
/// their sum wrapped to 32 bits, and leaves the runtime as it was: the operand stack below the
/// arguments is kept, the call stack is empty again, the store is unchanged.
pub proof fn law_call_i32_add(rt: RuntimeView, idx: usize, a: i32, b: i32)
    requires
        idx < rt.store.len(),
        is_i32_add_function(rt.store[idx as int]),
        rt.call_stack.len() == 0,
        rt.stack.len() + 2 <= usize::MAX,
    ensures
        !call_aborts(rt, idx, seq![Value::I32(a), Value::I32(b)]),
        spec_call(rt, idx, seq![Value::I32(a), Value::I32(b)]) == (rt, Ok::<_, RuntimeError>(
            Some(Value::I32(vstd::wrapping::i32_specs::wrapping_add(a, b))),
        )),
{
    reveal_with_fuel(spec_execute, 2);
    let args = seq![Value::I32(a), Value::I32(b)];
    let stack = rt.stack + args;
    assert(stack.take(rt.stack.len() as int) == rt.stack);
    assert(stack.skip(rt.stack.len() as int) == args);
    let n = rt.stack.len();
    let sum = Value::I32(vstd::wrapping::i32_specs::wrapping_add(a, b));
    let s1 = rt.stack.push(Value::I32(a));
    let s2 = s1.push(Value::I32(b));
    let s3 = rt.stack.push(sum);
    assert(s2.take(s2.len() - 2) == rt.stack);
    assert(s3.drop_last().take(n as int) == rt.stack);
    assert(s3.drop_last() == rt.stack);
    assert(rt.call_stack == Seq::<FrameView>::empty());
    let f = rt.store[idx as int];
    let fr = invoke_frame(stack, f);
    assert(f.code.locals.map_values(|t: ValueType| zero_value(t)) == Seq::<Value>::empty());
    assert(fr.locals == args);
    let fr0 = FrameView { pc: 0, ..fr };
    let fr1 = FrameView { pc: 1, ..fr };
    let fr2 = FrameView { pc: 2, ..fr };
    let fr3 = FrameView { pc: 3, ..fr };
    assert(rt.call_stack.push(fr) == seq![fr]);
    assert(seq![fr].update(0, fr0) == seq![fr0]);
    assert(seq![fr0].update(0, fr1) == seq![fr1]);
    assert(seq![fr1].update(0, fr2) == seq![fr2]);
    assert(seq![fr2].update(0, fr3) == seq![fr3]);
    assert(seq![fr3].drop_last() == Seq::<FrameView>::empty());
    assert(spec_execute(s3, Seq::empty()) == (s3, Seq::<FrameView>::empty(), Outcome::Done));
    assert(spec_execute(s3, seq![fr2]) == spec_execute(s3, Seq::<FrameView>::empty()));
    assert(spec_execute(s2, seq![fr1]) == spec_execute(s3, seq![fr2]));
    assert(spec_execute(s1, seq![fr0]) == spec_execute(s2, seq![fr1]));
    assert(spec_execute(rt.stack, seq![fr]) == spec_execute(s1, seq![fr0]));
}

/// A call never changes the store.
pub proof fn law_call_keeps_store(rt: RuntimeView, idx: usize, args: Seq<Value>)
    ensures
        spec_call(rt, idx, args).0.store == rt.store,
{
}

/// A call of a function index past the end of the store fails with `FuncNotFound` and changes
/// nothing, not even the operand stack.
pub proof fn law_call_missing_function(rt: RuntimeView, idx: usize, args: Seq<Value>)
    requires
        idx >= rt.store.len(),
    ensures
        !call_aborts(rt, idx, args),
        spec_call(rt, idx, args) == (rt, Err::<Option<Value>, RuntimeError>(RuntimeError::FuncNotFound)),
{
}

/// When running a function's instructions fails, the call leaves both the operand stack and
/// the call stack empty.
pub proof fn law_failed_run_clears_stacks(rt: RuntimeView, idx: usize, args: Seq<Value>)
    ensures
        spec_call(rt, idx, args).1 matches Err(RuntimeError::Execution(_)) ==> {
            &&& spec_call(rt, idx, args).0.stack.len() == 0
            &&& spec_call(rt, idx, args).0.call_stack.len() == 0
        },
{
}

/// Unwinding a frame leaves the stack at the frame's stack pointer, plus the result when the
/// frame has results.
pub proof fn law_unwind_height(stack: Seq<Value>, sp: usize, arity: usize)
    requires
        !unwind_aborts(stack, sp, arity),
    ensures
        spec_stack_unwind(stack, sp, arity).1 is Ok ==> spec_stack_unwind(stack, sp, arity).0.len()
            == sp + if arity > 0 { 1int } else { 0int },
        spec_stack_unwind(stack, sp, arity).1 is Ok && arity > 0 ==> spec_stack_unwind(stack, sp, arity).0.last() == stack.last(),
        spec_stack_unwind(stack, sp, arity).1 is Err ==> spec_stack_unwind(stack, sp, arity).0 == stack,
{
}

/// The type of a value.
pub open spec fn type_of(v: Value) -> ValueType {
    match v {
        Value::I32(_) => ValueType::I32,
        Value::I64(_) => ValueType::I64,
    }
}

/// The types of a list of values.
pub open spec fn types_of(vs: Seq<Value>) -> Seq<ValueType> {
    vs.map_values(|v: Value| type_of(v))
}

/// The types on the stack above the frame's base when a body, run from instruction `i` with
/// locals of types `locals` and a stack of types `tys` above the base, reaches its first `end`:
/// each `local.get` must name a local, each `i32.add` must find two values of one type on top,
/// and leaves one value of that type. `None` when a check fails or no `end` comes.
pub open spec fn end_types(insts: Seq<Instruction>, locals: Seq<ValueType>, i: nat, tys: Seq<ValueType>) -> Option<Seq<ValueType>>
    decreases insts.len() - i,
{
    if i >= insts.len() {
        None
    } else {
        match insts[i as int] {
            Instruction::End => Some(tys),
            Instruction::LocalGet(k) => if k < locals.len() {
                end_types(insts, locals, i + 1, tys.push(locals[k as int]))
            } else {
                None
            },
            Instruction::I32Add => if tys.len() >= 2 && tys.last() == tys[tys.len() - 2] {
                end_types(insts, locals, i + 1, tys.drop_last())
            } else {
                None
            },
        }
    }
}

/// The types on the stack above the base when the body of `f` reaches its first `end`, run
/// with its parameters and declared locals as locals.
pub open spec fn body_end_types(f: InternalFuncInstView) -> Option<Seq<ValueType>> {
    end_types(f.code.body, f.func_type.params + f.code.locals, 0, Seq::empty())
}

/// The body of `f` reaches an `end`, its additions see operands of one type, and when `f` has
/// results that `end` finds a value above the frame's base. Extra values above the base are
/// allowed.
pub open spec fn runs_to_end(f: InternalFuncInstView) -> bool {
    body_end_types(f) matches Some(tys) && (f.func_type.results.len() > 0 ==> tys.len() > 0)
}

/// The body of `f` is well typed: it reaches an `end` with exactly its result types above the
/// base.
pub open spec fn well_typed(f: InternalFuncInstView) -> bool {
    body_end_types(f) == Some(f.func_type.results)
}

/// Running a single frame whose instructions reach an `end` from index `i` on: the frame is
/// popped and the stack is left at the frame's base plus, when the frame has results, the value
/// on top at that `end`, whose type is the last of `tys_end`.
proof fn lemma_run_to_end(
    base: Seq<Value>,
    vs: Seq<Value>,
    frame: FrameView,
    i: nat,
    tys_end: Seq<ValueType>,
)
    requires
        frame.pc == i - 1,
        frame.insts.len() <= isize::MAX,
        frame.sp == base.len(),
        end_types(frame.insts, types_of(frame.locals), i, types_of(vs)) == Some(tys_end),
        frame.arity > 0 ==> tys_end.len() > 0,
    ensures
        ({
            let r = spec_execute(base + vs, seq![frame]);
            &&& r.2 is Done
            &&& r.1.len() == 0
            &&& r.0.len() == base.len() + if frame.arity > 0 { 1int } else { 0int }
            &&& r.0.take(base.len() as int) == base
            &&& frame.arity > 0 ==> type_of(r.0.last()) == tys_end.last()
        }),
    decreases frame.insts.len() - i,
{
    let stack = base + vs;
    let pc = (frame.pc + 1) as isize;
    let frame1 = FrameView { pc, ..frame };
    assert(seq![frame].update(0, frame1) == seq![frame1]);
    assert(seq![frame].last() == frame);
    assert(pc as usize == i);
    let tys = types_of(vs);
    assert(i < frame.insts.len());
    assert(frame.pc != isize::MAX);
    match frame.insts[i as int] {
        Instruction::End => {
            assert(tys == tys_end);
            assert(seq![frame].drop_last() == Seq::<FrameView>::empty());
            assert(!unwind_aborts(stack, frame.sp, frame.arity));
            let u = spec_stack_unwind(stack, frame.sp, frame.arity);
            assert(u.1 is Ok);
            assert(spec_execute(stack, seq![frame]) == spec_execute(u.0, Seq::<FrameView>::empty()));
            if frame.arity > 0 {
                assert(stack.drop_last().take(base.len() as int) == base);
                assert(stack.last() == vs.last());
                assert(types_of(vs).last() == type_of(vs.last()));
            } else {
                assert(stack.take(base.len() as int) == base);
            }
        },
        Instruction::LocalGet(k) => {
            assert(types_of(frame.locals)[k as int] == type_of(frame.locals[k as int]));
            let vs1 = vs.push(frame.locals[k as int]);
            assert(stack.push(frame.locals[k as int]) == base + vs1);
            assert(types_of(vs1) == tys.push(types_of(frame.locals)[k as int]));
            assert(types_of(frame1.locals) == types_of(frame.locals));
            assert(spec_execute(stack, seq![frame]) == spec_execute(base + vs1, seq![frame1]));
            lemma_run_to_end(base, vs1, frame1, i + 1, tys_end);
        },
        Instruction::I32Add => {
            let n = vs.len();
            assert(types_of(vs)[n - 1] == type_of(vs[n - 1]));
            assert(types_of(vs)[n - 2] == type_of(vs[n - 2]));
            assert(stack.last() == vs[n - 1]);
            assert(stack[stack.len() - 2] == vs[n - 2]);
            let sum = spec_add(vs[n - 2], vs[n - 1]).unwrap();
            let vs1 = vs.take(n - 2).push(sum);
            assert(stack.take(stack.len() - 2).push(sum) == base + vs1);
            assert(types_of(vs1) == tys.drop_last());
            assert(spec_execute(stack, seq![frame]) == spec_execute(base + vs1, seq![frame1]));
            lemma_run_to_end(base, vs1, frame1, i + 1, tys_end);
        },
    }
}

/// A call, from an empty call stack, with arguments of the parameter types, of a function
/// whose body reaches an `end` (with additions on operands of one type, and a value above the
/// base there when it has results) succeeds and restores both stacks: the operand stack is as
/// it was and the call stack is empty again. It gives the value on top at that `end` when the
/// function has results, and `None` when it has none. So the runtime after the call is the one
/// before it, and calling again with the same arguments gives the same result.
pub proof fn law_call_restores(rt: RuntimeView, idx: usize, args: Seq<Value>)
    requires
        idx < rt.store.len(),
        runs_to_end(rt.store[idx as int]),
        types_of(args) == rt.store[idx as int].func_type.params,
        rt.call_stack.len() == 0,
        rt.stack.len() + args.len() <= usize::MAX,
        rt.store[idx as int].code.body.len() <= isize::MAX,
        rt.store[idx as int].func_type.results.len() <= usize::MAX,
    ensures
        !call_aborts(rt, idx, args),
        spec_call(rt, idx, args).0 == rt,
        spec_call(rt, idx, args).1 matches Ok(r) && (r is Some <==> rt.store[idx as int].func_type.results.len() > 0)
            && (r matches Some(v) ==> type_of(v) == body_end_types(rt.store[idx as int]).unwrap().last()),
        spec_call(spec_call(rt, idx, args).0, idx, args) == spec_call(rt, idx, args),
{
    let f = rt.store[idx as int];
    let stack = rt.stack + args;
    let e: Seq<Value> = Seq::empty();
    assert(stack.take(rt.stack.len() as int) == rt.stack);
    assert(stack.skip(rt.stack.len() as int) == args);
    let zeros = f.code.locals.map_values(|t: ValueType| zero_value(t));
    let frame = invoke_frame(stack, f);
    assert(frame.locals == args + zeros);
    assert(types_of(zeros) == f.code.locals);
    assert(types_of(args + zeros) == types_of(args) + types_of(zeros));
    assert(types_of(e) == Seq::<ValueType>::empty());
    assert(rt.stack + e == rt.stack);
    assert(rt.call_stack.push(frame) == seq![frame]);
    lemma_run_to_end(rt.stack, e, frame, 0, body_end_types(f).unwrap());
    let r = spec_execute(rt.stack, seq![frame]);
    assert(r.1 == Seq::<FrameView>::empty());
    assert(rt.call_stack == Seq::<FrameView>::empty());
    if f.func_type.results.len() > 0 {
        assert(r.0.drop_last() == rt.stack);
    } else {
        assert(r.0 == rt.stack);
    }
}

/// A call of a well-typed function with arguments of its parameter types, from an empty call
/// stack, restores both stacks as `law_call_restores` says, and its value has the function's
/// last result type.
pub proof fn law_well_typed_call_restores(rt: RuntimeView, idx: usize, args: Seq<Value>)
    requires
        idx < rt.store.len(),
        well_typed(rt.store[idx as int]),
        types_of(args) == rt.store[idx as int].func_type.params,
        rt.call_stack.len() == 0,
        rt.stack.len() + args.len() <= usize::MAX,
        rt.store[idx as int].code.body.len() <= isize::MAX,
        rt.store[idx as int].func_type.results.len() <= usize::MAX,
    ensures
        !call_aborts(rt, idx, args),
        spec_call(rt, idx, args).0 == rt,
        spec_call(rt, idx, args).1 matches Ok(r) && (r is Some <==> rt.store[idx as int].func_type.results.len() > 0)
            && (r matches Some(v) ==> type_of(v) == rt.store[idx as int].func_type.results.last()),
        spec_call(spec_call(rt, idx, args).0, idx, args) == spec_call(rt, idx, args),
{
    law_call_restores(rt, idx, args);
}

/// In the frame of a call, the locals are the arguments (the values on top of the stack, in
/// order) followed by one zero per declared local: `I32(0)` for an `i32` local, `I64(0)` for an
/// `i64` local.
pub proof fn law_frame_locals(stack: Seq<Value>, f: InternalFuncInstView)
    requires
        stack.len() >= f.func_type.params.len(),
    ensures
        ({
            let locals = invoke_frame(stack, f).locals;
            let np = f.func_type.params.len();
            &&& locals.len() == np + f.code.locals.len()
            &&& forall|i: int| 0 <= i < np ==> #[trigger] locals[i] == stack[stack.len() - np + i]
            &&& forall|j: int| 0 <= j < f.code.locals.len() ==> #[trigger] locals[np + j] == (if f.code.locals[j]
                == ValueType::I32 {
                Value::I32(0)
            } else {
                Value::I64(0)
            })
        }),
{
}

/// Calling, from an empty call stack, a function with results whose body is `local.get k`
/// gives local `k` of its frame and leaves the runtime as it was: argument `k` when `k` names a
/// parameter, and otherwise the zero of the declared local's type (`I32(0)` or `I64(0)`).
pub proof fn law_call_reads_local(rt: RuntimeView, idx: usize, args: Seq<Value>, k: u32)
    requires
        idx < rt.store.len(),
        rt.store[idx as int].code.body == seq![Instruction::LocalGet(k), Instruction::End],
        rt.store[idx as int].func_type.results.len() > 0,
        rt.store[idx as int].func_type.results.len() <= usize::MAX,
        args.len() == rt.store[idx as int].func_type.params.len(),
        k < args.len() + rt.store[idx as int].code.locals.len(),
        rt.call_stack.len() == 0,
        rt.stack.len() + args.len() <= usize::MAX,
    ensures
        !call_aborts(rt, idx, args),
        spec_call(rt, idx, args) == (rt, Ok::<_, RuntimeError>(Some(
            if k < args.len() {
                args[k as int]
            } else if rt.store[idx as int].code.locals[k - args.len()] == ValueType::I32 {
                Value::I32(0)
            } else {
                Value::I64(0)
            },
        ))),
{
    reveal_with_fuel(spec_execute, 2);
    let f = rt.store[idx as int];
    let stack = rt.stack + args;
    let n = rt.stack.len();
    assert(stack.take(n as int) == rt.stack);
    assert(stack.skip(n as int) == args);
    let fr = invoke_frame(stack, f);
    law_frame_locals(stack, f);
    let v = fr.locals[k as int];
    if k < args.len() {
        assert(v == stack[n + k]);
    } else {
        assert(v == fr.locals[args.len() + (k - args.len())]);
    }
    let fr0 = FrameView { pc: 0, ..fr };
    let fr1 = FrameView { pc: 1, ..fr };
    assert(rt.call_stack.push(fr) == seq![fr]);
    assert(seq![fr].update(0, fr0) == seq![fr0]);
    assert(seq![fr0].update(0, fr1) == seq![fr1]);
    assert(seq![fr1].drop_last() == Seq::<FrameView>::empty());
    let s1 = rt.stack.push(v);
    assert(s1.drop_last().take(n as int) == rt.stack);
    assert(s1.drop_last().take(n as int).push(s1.last()) == s1);
    assert(spec_execute(s1, Seq::empty()) == (s1, Seq::<FrameView>::empty(), Outcome::Done));
    assert(spec_execute(s1, seq![fr0]) == spec_execute(s1, Seq::<FrameView>::empty()));
    assert(spec_execute(rt.stack, seq![fr]) == spec_execute(s1, seq![fr0]));
    assert(s1.drop_last() == rt.stack);
    assert(rt.call_stack == Seq::<FrameView>::empty());
}

} // verus!
