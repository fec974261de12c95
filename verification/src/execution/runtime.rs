//! The interpreter: frames, the operand stack, and calls into the store.

use vstd::prelude::*;
use crate::binary::instruction::{copy_instructions, Instruction};
use crate::binary::module::{decode_unsupported, spec_decode, Module};
use crate::binary::types::ValueType;
use crate::execution::error::{ExecError, RuntimeError};
use crate::execution::store::{spec_store, FuncInst, InternalFuncInst, InternalFuncInstView, Store};
use crate::execution::value::{spec_add, Value};

verus! {

/// The activation of a function: where it is in its instructions, where its part of the operand
/// stack starts, how many results it leaves, and its locals.
#[derive(Debug)]
pub struct Frame {
    /// The index of the instruction last run; -1 before the first.
    pub pc: isize,
    /// The height of the operand stack below this activation.
    pub sp: usize,
    pub insts: Vec<Instruction>,
    /// The number of results.
    pub arity: usize,
    pub locals: Vec<Value>,
}

/// What a `Frame` holds.
pub struct FrameView {
    pub pc: isize,
    pub sp: usize,
    pub insts: Seq<Instruction>,
    pub arity: usize,
    pub locals: Seq<Value>,
}

impl View for Frame {
    type V = FrameView;

    open spec fn view(&self) -> FrameView {
        FrameView {
            pc: self.pc,
            sp: self.sp,
            insts: self.insts@,
            arity: self.arity,
            locals: self.locals@,
        }
    }
}

impl Default for Frame {
    fn default() -> (res: Self)
        ensures
            res@ == (FrameView { pc: 0, sp: 0, insts: Seq::empty(), arity: 0, locals: Seq::empty() }),
    {
        Frame { pc: 0, sp: 0, insts: Vec::new(), arity: 0, locals: Vec::new() }
    }
}

/// The views of a call stack.
pub open spec fn frames_view(v: Seq<Frame>) -> Seq<FrameView> {
    v.map_values(|f: Frame| f@)
}

/// A module instance at run time: its store, the operand stack and the call stack.
#[derive(Debug)]
pub struct Runtime {
    pub store: Store,
    pub stack: Vec<Value>,
    pub call_stack: Vec<Frame>,
}

/// What a `Runtime` holds.
pub struct RuntimeView {
    pub store: Seq<InternalFuncInstView>,
    pub stack: Seq<Value>,
    pub call_stack: Seq<FrameView>,
}

impl View for Runtime {
    type V = RuntimeView;

    open spec fn view(&self) -> RuntimeView {
        RuntimeView { store: self.store@, stack: self.stack@, call_stack: frames_view(self.call_stack@) }
    }
}

impl Default for Runtime {
    fn default() -> (res: Self)
        ensures
            res@ == (RuntimeView { store: Seq::empty(), stack: Seq::empty(), call_stack: Seq::empty() }),
    {
        let res = Runtime { store: Store::default(), stack: Vec::new(), call_stack: Vec::new() };
        assert(res.store@ == Seq::<InternalFuncInstView>::empty());
        assert(frames_view(res.call_stack@) == Seq::<FrameView>::empty());
        res
    }
}

/// How running instructions ends.
pub enum Outcome {
    /// The call stack is empty, or the top frame has run past its last instruction.
    Done,
    /// An instruction failed.
    Error(ExecError),
    /// The state is one on which the interpreter would panic: a program counter at `isize::MAX`
    /// that is to be advanced, or an `end` whose frame's stack pointer lies above the stack.
    Abort,
}

/// Unwinding a frame with stack pointer `sp` and `arity` results would cut the stack at a height
/// above its top.
pub open spec fn unwind_aborts(stack: Seq<Value>, sp: usize, arity: usize) -> bool {
    if arity > 0 {
        stack.len() > 0 && sp > stack.len() - 1
    } else {
        sp > stack.len()
    }
}

/// Unwinding a frame: the stack is cut back to `sp`, keeping the top value on it when the frame
/// has results; with results and an empty stack, the stack stays and the error is
/// `ReturnValueNotFound`.
pub open spec fn spec_stack_unwind(stack: Seq<Value>, sp: usize, arity: usize) -> (Seq<Value>, Result<(), ExecError>) {
    if arity > 0 {
        if stack.len() == 0 {
            (stack, Err(ExecError::ReturnValueNotFound))
        } else {
            (stack.drop_last().take(sp as int).push(stack.last()), Ok(()))
        }
    } else {
        (stack.take(sp as int), Ok(()))
    }
}

/// The measure that running instructions decreases: frames left, then steps left to the top
/// frame's program counter limit.
pub open spec fn exec_measure(frames: Seq<FrameView>) -> int {
    if frames.len() > 0 {
        isize::MAX - frames.last().pc
    } else {
        0
    }
}

/// Runs instructions of the top frame until the call stack is empty, the top frame runs past
/// its last instruction, or an instruction fails; gives the final stack, the final call stack
/// and how it ended. Each step advances the top frame's program counter, then runs
///   - `i32.add`: pops two values and pushes their sum (`StackEmpty` when fewer than two, with
///     the stack left empty; `TypeMismatch` when their types differ);
///   - `local.get i`: pushes local `i` of the top frame (`LocalNotFound` when there is none);
///   - `end`: pops the frame and unwinds the stack to its stack pointer.
pub open spec fn spec_execute(stack: Seq<Value>, frames: Seq<FrameView>) -> (Seq<Value>, Seq<FrameView>, Outcome)
    decreases frames.len(), exec_measure(frames),
{
    if frames.len() == 0 {
        (stack, frames, Outcome::Done)
    } else {
        let top = frames.last();
        if top.pc == isize::MAX {
            (stack, frames, Outcome::Abort)
        } else {
            let pc = (top.pc + 1) as isize;
            let frame = FrameView { pc, ..top };
            let frames1 = frames.update(frames.len() - 1, frame);
            let idx = pc as usize;
            if idx >= top.insts.len() {
                (stack, frames1, Outcome::Done)
            } else {
                match top.insts[idx as int] {
                    Instruction::I32Add => if stack.len() < 2 {
                        (Seq::empty(), frames1, Outcome::Error(ExecError::StackEmpty))
                    } else {
                        let rest = stack.take(stack.len() - 2);
                        match spec_add(stack[stack.len() - 2], stack.last()) {
                            Some(v) => spec_execute(rest.push(v), frames1),
                            None => (rest, frames1, Outcome::Error(ExecError::TypeMismatch)),
                        }
                    },
                    Instruction::LocalGet(i) => if (i as usize) < top.locals.len() {
                        spec_execute(stack.push(top.locals[(i as usize) as int]), frames1)
                    } else {
                        (stack, frames1, Outcome::Error(ExecError::LocalNotFound))
                    },
                    Instruction::End => {
                        let frames2 = frames.drop_last();
                        if unwind_aborts(stack, top.sp, top.arity) {
                            (stack, frames2, Outcome::Abort)
                        } else {
                            let (stack2, r) = spec_stack_unwind(stack, top.sp, top.arity);
                            match r {
                                Ok(()) => spec_execute(stack2, frames2),
                                Err(e) => (stack2, frames2, Outcome::Error(e)),
                            }
                        }
                    },
                }
            }
        }
    }
}

/// Cuts `stack` back to `sp`, keeping its top value when `arity` is not zero. Stacks on which
/// the cut would start above the top (where `drain` panics) are left out.
pub fn stack_unwind(stack: &mut Vec<Value>, sp: usize, arity: usize) -> (res: Result<(), ExecError>)
    requires
        !unwind_aborts(old(stack)@, sp, arity),
    ensures
        (final(stack)@, res) == spec_stack_unwind(old(stack)@, sp, arity),
{
    if arity > 0 {
        let value = match stack.pop() {
            Some(value) => value,
            None => {
                return Err(ExecError::ReturnValueNotFound);
            },
        };
        stack.truncate(sp);
        stack.push(value);
    } else {
        stack.truncate(sp);
    }
    Ok(())
}

/// Popping the top frame and pushing another in its place replaces the top frame's view.
proof fn lemma_frames_view_replace_top(v: Seq<Frame>, f: Frame)
    requires
        v.len() > 0,
    ensures
        frames_view(v.drop_last()) == frames_view(v).drop_last(),
        frames_view(v.drop_last().push(f)) == frames_view(v).update(v.len() - 1, f@),
        frames_view(v).last() == v.last()@,
{
    assert(frames_view(v.drop_last()) == frames_view(v).drop_last());
    assert(frames_view(v.drop_last().push(f)) == frames_view(v).update(v.len() - 1, f@));
}

/// The result that `execute` gives for an outcome other than `Abort`.
pub open spec fn outcome_result(o: Outcome) -> Result<(), ExecError> {
    match o {
        Outcome::Error(e) => Err(e),
        _ => Ok(()),
    }
}

/// The value that a local of type `t` starts with: zero.
pub open spec fn zero_value(t: ValueType) -> Value {
    match t {
        ValueType::I32 => Value::I32(0),
        ValueType::I64 => Value::I64(0),
    }
}

/// The height of the stack below the arguments of `f`.
pub open spec fn invoke_bottom(stack: Seq<Value>, f: InternalFuncInstView) -> int {
    stack.len() - f.func_type.params.len()
}

/// The frame of a call of `f`: the arguments come off the top of `stack` and, followed by a zero
/// for each declared local, become its locals; its stack pointer is the height below them.
pub open spec fn invoke_frame(stack: Seq<Value>, f: InternalFuncInstView) -> FrameView {
    let bottom = invoke_bottom(stack, f);
    FrameView {
        pc: -1isize,
        sp: bottom as usize,
        insts: f.code.body,
        arity: f.func_type.results.len() as usize,
        locals: stack.skip(bottom) + f.code.locals.map_values(|t: ValueType| zero_value(t)),
    }
}

/// A call of `f` on these stacks would panic: the stack holds fewer values than `f` has
/// parameters, or running its frame would.
pub open spec fn invoke_aborts(stack: Seq<Value>, frames: Seq<FrameView>, f: InternalFuncInstView) -> bool {
    stack.len() < f.func_type.params.len() || spec_execute(
        stack.take(invoke_bottom(stack, f)),
        frames.push(invoke_frame(stack, f)),
    ).2 is Abort
}

/// A call of `f`: its frame is pushed and run. When the run fails, both stacks are emptied and
/// the error is given. Otherwise, when `f` has results, the top of the stack is popped and given
/// (`ReturnValuesNotFound` when the stack is empty); when it has none, `None`.
pub open spec fn spec_invoke(stack: Seq<Value>, frames: Seq<FrameView>, f: InternalFuncInstView) -> (Seq<Value>, Seq<FrameView>, Result<Option<Value>, RuntimeError>) {
    let r = spec_execute(stack.take(invoke_bottom(stack, f)), frames.push(invoke_frame(stack, f)));
    match r.2 {
        Outcome::Error(e) => (Seq::empty(), Seq::empty(), Err(RuntimeError::Execution(e))),
        _ => if f.func_type.results.len() > 0 {
            if r.0.len() == 0 {
                (r.0, r.1, Err(RuntimeError::ReturnValuesNotFound))
            } else {
                (r.0.drop_last(), r.1, Ok(Some(r.0.last())))
            }
        } else {
            (r.0, r.1, Ok(None))
        },
    }
}

/// Calling function `idx` with `args` would panic.
pub open spec fn call_aborts(rt: RuntimeView, idx: usize, args: Seq<Value>) -> bool {
    idx < rt.store.len() && invoke_aborts(rt.stack + args, rt.call_stack, rt.store[idx as int])
}

/// A call of function `idx` with `args`: with no such function, nothing changes and the error
/// is `FuncNotFound`; otherwise the arguments are pushed and the function is invoked.
pub open spec fn spec_call(rt: RuntimeView, idx: usize, args: Seq<Value>) -> (RuntimeView, Result<Option<Value>, RuntimeError>) {
    if idx >= rt.store.len() {
        (rt, Err(RuntimeError::FuncNotFound))
    } else {
        let r = spec_invoke(rt.stack + args, rt.call_stack, rt.store[idx as int]);
        (RuntimeView { store: rt.store, stack: r.0, call_stack: r.1 }, r.2)
    }
}

/// The runtime that instantiating the module in `wasm` gives: its store, with empty stacks.
pub open spec fn spec_instantiate(wasm: Seq<u8>) -> Result<RuntimeView, RuntimeError> {
    match spec_decode(wasm) {
        Err(e) => Err(RuntimeError::Decode(e)),
        Ok((_, m)) => match spec_store(m) {
            Ok(fs) => Ok(RuntimeView { store: fs, stack: Seq::empty(), call_stack: Seq::empty() }),
            Err(e) => Err(e),
        },
    }
}

impl Runtime {
    /// Decodes the module in `wasm` and builds its store, as `spec_instantiate` says. Inputs on
    /// which decoding meets something it does not support are left out.
    pub fn instantiate(wasm: &[u8]) -> (res: Result<Self, RuntimeError>)
        requires
            !decode_unsupported(wasm@),
        ensures
            match spec_instantiate(wasm@) {
                Ok(v) => res matches Ok(rt) && rt@ == v,
                Err(e) => res matches Err(e2) && e2 == e,
            },
    {
        let module = match Module::new(wasm) {
            Ok(module) => module,
            Err(e) => {
                return Err(RuntimeError::Decode(e));
            },
        };
        let store = Store::new(module)?;
        let rt = Runtime { store, stack: Vec::new(), call_stack: Vec::new() };
        assert(frames_view(rt.call_stack@) == Seq::<FrameView>::empty());
        Ok(rt)
    }

    /// Calls `func` with its arguments on top of the stack, as `spec_invoke` says. States on
    /// which the call would panic are left out. The store is not changed.
    pub fn invoke_internal(&mut self, func: InternalFuncInst) -> (res: Result<Option<Value>, RuntimeError>)
        requires
            !invoke_aborts(old(self).stack@, frames_view(old(self).call_stack@), func@),
        ensures
            ({
                let r = spec_invoke(old(self).stack@, frames_view(old(self).call_stack@), func@);
                &&& final(self).stack@ == r.0
                &&& frames_view(final(self).call_stack@) == r.1
                &&& res == r.2
            }),
            final(self).store@ == old(self).store@,
    {
        let ghost stack0 = self.stack@;
        let bottom = self.stack.len() - func.func_type.params.len();
        let mut locals = self.stack.split_off(bottom);
        let ghost args = locals@;
        let ghost zero = |t: ValueType| zero_value(t);
        for i in 0..func.code.locals.len()
            invariant
                locals@ == args + func.code.locals@.take(i as int).map_values(zero),
                zero == (|t: ValueType| zero_value(t)),
        {
            let local = func.code.locals[i];
            match local {
                ValueType::I32 => locals.push(Value::I32(0)),
                ValueType::I64 => locals.push(Value::I64(0)),
            }
            assert(func.code.locals@.take(i + 1).map_values(zero)
                == func.code.locals@.take(i as int).map_values(zero).push(zero_value(local)));
        }
        assert(func.code.locals@.take(func.code.locals.len() as int) == func.code.locals@);
        let arity = func.func_type.results.len();
        let frame = Frame { pc: -1, sp: self.stack.len(), insts: func.code.body, arity, locals };
        assert(frame@ == invoke_frame(stack0, func@));
        let ghost frames0 = self.call_stack@;
        self.call_stack.push(frame);
        assert(frames_view(self.call_stack@) == frames_view(frames0).push(frame@));
        if let Err(e) = self.execute() {
            self.cleanup();
            return Err(RuntimeError::Execution(e));
        }
        if arity > 0 {
            let value = match self.stack.pop() {
                Some(value) => value,
                None => {
                    return Err(RuntimeError::ReturnValuesNotFound);
                },
            };
            return Ok(Some(value));
        }
        Ok(None)
    }

    /// Empties the operand stack and the call stack.
    pub fn cleanup(&mut self)
        ensures
            final(self)@ == (RuntimeView { store: old(self)@.store, stack: Seq::empty(), call_stack: Seq::empty() }),
    {
        self.stack = Vec::new();
        self.call_stack = Vec::new();
        assert(frames_view(self.call_stack@) == Seq::<FrameView>::empty());
    }

    /// Calls function `idx` with `args`, as `spec_call` says: `FuncNotFound` when there is no
    /// such function; otherwise the arguments are pushed and the function runs; its result, if
    /// it has one, is given. Calls that would panic are left out.
    pub fn call(&mut self, idx: usize, args: Vec<Value>) -> (res: Result<Option<Value>, RuntimeError>)
        requires
            !call_aborts(old(self)@, idx, args@),
        ensures
            (final(self)@, res) == spec_call(old(self)@, idx, args@),
    {
        if idx >= self.store.funcs.len() {
            return Err(RuntimeError::FuncNotFound);
        }
        let func = match &self.store.funcs[idx] {
            FuncInst::Internal(func) => func.clone(),
        };
        assert(func@ == self@.store[idx as int]);
        let ghost stack0 = self.stack@;
        let ghost rt0 = self@;
        for i in 0..args.len()
            invariant
                self.stack@ == stack0 + args@.take(i as int),
                rt0 == old(self)@,
                stack0 == rt0.stack,
                self.store@ == rt0.store,
                frames_view(self.call_stack@) == rt0.call_stack,
                idx < rt0.store.len(),
                func@ == rt0.store[idx as int],
        {
            self.stack.push(args[i]);
            assert(args@.take(i + 1) == args@.take(i as int).push(args@[i as int]));
        }
        assert(args@.take(args.len() as int) == args@);
        self.invoke_internal(func)
    }

    /// Runs the instructions of the top frame as `spec_execute` says, until the call stack is
    /// empty, the top frame runs past its last instruction, or an instruction fails. States on
    /// which the run would panic are left out. The store is not changed.
    pub fn execute(&mut self) -> (res: Result<(), ExecError>)
        requires
            !(spec_execute(old(self).stack@, frames_view(old(self).call_stack@)).2 is Abort),
        ensures
            ({
                let r = spec_execute(old(self).stack@, frames_view(old(self).call_stack@));
                &&& final(self).stack@ == r.0
                &&& frames_view(final(self).call_stack@) == r.1
                &&& res == outcome_result(r.2)
            }),
            final(self).store@ == old(self).store@,
    {
        let ghost goal = spec_execute(self.stack@, frames_view(self.call_stack@));
        let ghost store0 = self.store@;
        loop
            invariant
                spec_execute(self.stack@, frames_view(self.call_stack@)) == goal,
                goal == spec_execute(old(self).stack@, frames_view(old(self).call_stack@)),
                store0 == old(self).store@,
                !(goal.2 is Abort),
                self.store@ == store0,
            decreases self.call_stack@.len(), exec_measure(frames_view(self.call_stack@)),
        {
            if self.call_stack.len() == 0 {
                return Ok(());
            }
            let ghost frames0 = self.call_stack@;
            let ghost stack0 = self.stack@;
            proof {
                lemma_frames_view_replace_top(frames0, frames0.last());
            }
            let mut frame = match self.call_stack.pop() {
                Some(frame) => frame,
                None => {
                    return Ok(());
                },
            };
            frame.pc = frame.pc + 1;
            proof {
                lemma_frames_view_replace_top(frames0, frame);
            }
            let idx = frame.pc as usize;
            if idx >= frame.insts.len() {
                self.call_stack.push(frame);
                return Ok(());
            }
            let inst = frame.insts[idx];
            match inst {
                Instruction::I32Add => {
                    let right = self.stack.pop();
                    let left = self.stack.pop();
                    self.call_stack.push(frame);
                    match (right, left) {
                        (Some(right), Some(left)) => {
                            assert(stack0.take(stack0.len() - 2) == self.stack@);
                            match left.try_add(right) {
                                Some(result) => {
                                    self.stack.push(result);
                                },
                                None => {
                                    return Err(ExecError::TypeMismatch);
                                },
                            }
                        },
                        _ => {
                            assert(self.stack@ == Seq::<Value>::empty());
                            return Err(ExecError::StackEmpty);
                        },
                    }
                },
                Instruction::LocalGet(i) => {
                    if (i as usize) < frame.locals.len() {
                        let value = frame.locals[i as usize];
                        self.call_stack.push(frame);
                        self.stack.push(value);
                    } else {
                        self.call_stack.push(frame);
                        return Err(ExecError::LocalNotFound);
                    }
                },
                Instruction::End => {
                    let Frame { sp, arity, .. } = frame;
                    stack_unwind(&mut self.stack, sp, arity)?;
                },
            }
        }
    }
}

} // verus!
