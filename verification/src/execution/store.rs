//! The store: the function instances of an instantiated module.

use vstd::prelude::*;
use crate::binary::instruction::{copy_instructions, Instruction};
use crate::binary::module::{Module, ModuleView};
use crate::binary::section::FunctionView;
use crate::binary::types::{copy_value_types, FuncType, FuncTypeView, FunctionLocal, ValueType};
use crate::execution::error::RuntimeError;

verus! {

/// The code of a function instance: the types of all its locals, one entry per local, and its
/// instructions.
#[derive(Debug)]
pub struct Func {
    pub locals: Vec<ValueType>,
    pub body: Vec<Instruction>,
}

/// What a `Func` holds.
pub struct FuncView {
    pub locals: Seq<ValueType>,
    pub body: Seq<Instruction>,
}

impl View for Func {
    type V = FuncView;

    open spec fn view(&self) -> FuncView {
        FuncView { locals: self.locals@, body: self.body@ }
    }
}

impl Clone for Func {
    fn clone(&self) -> (res: Self)
        ensures
            res@ == self@,
    {
        Func { locals: copy_value_types(&self.locals), body: copy_instructions(&self.body) }
    }
}

/// A function defined in the module: its signature and its code.
#[derive(Debug)]
pub struct InternalFuncInst {
    pub func_type: FuncType,
    pub code: Func,
}

/// What an `InternalFuncInst` holds.
pub struct InternalFuncInstView {
    pub func_type: FuncTypeView,
    pub code: FuncView,
}

impl View for InternalFuncInst {
    type V = InternalFuncInstView;

    open spec fn view(&self) -> InternalFuncInstView {
        InternalFuncInstView { func_type: self.func_type@, code: self.code@ }
    }
}

impl Clone for InternalFuncInst {
    fn clone(&self) -> (res: Self)
        ensures
            res@ == self@,
    {
        InternalFuncInst { func_type: self.func_type.clone(), code: self.code.clone() }
    }
}

/// A function instance.
#[derive(Debug)]
pub enum FuncInst {
    Internal(InternalFuncInst),
}

impl View for FuncInst {
    type V = InternalFuncInstView;

    open spec fn view(&self) -> InternalFuncInstView {
        match self {
            FuncInst::Internal(f) => f@,
        }
    }
}

impl Clone for FuncInst {
    fn clone(&self) -> (res: Self)
        ensures
            res@ == self@,
    {
        match self {
            FuncInst::Internal(f) => FuncInst::Internal(f.clone()),
        }
    }
}

/// The function instances of an instantiated module, indexed by function index.
#[derive(Debug)]
pub struct Store {
    pub funcs: Vec<FuncInst>,
}

/// The views of a list of function instances.
pub open spec fn funcs_view(v: Seq<FuncInst>) -> Seq<InternalFuncInstView> {
    v.map_values(|f: FuncInst| f@)
}

impl View for Store {
    type V = Seq<InternalFuncInstView>;

    open spec fn view(&self) -> Seq<InternalFuncInstView> {
        funcs_view(self.funcs@)
    }
}

impl Default for Store {
    fn default() -> (res: Self)
        ensures
            res@.len() == 0,
    {
        Store { funcs: Vec::new() }
    }
}

/// The types of the locals that the declarations `locals` declare, in order: each declaration
/// gives `type_count` locals of its type.
pub open spec fn expand_locals(locals: Seq<FunctionLocal>) -> Seq<ValueType>
    decreases locals.len(),
{
    if locals.len() == 0 {
        Seq::empty()
    } else {
        expand_locals(locals.drop_last()) + Seq::new(
            locals.last().type_count as nat,
            |_i: int| locals.last().value_type,
        )
    }
}

/// The number of function instances that a module gives: one for each function body that has a
/// type index beside it.
pub open spec fn func_count(m: ModuleView) -> nat {
    match (m.code_section, m.function_section) {
        (Some(code), Some(idxs)) => if code.len() <= idxs.len() {
            code.len()
        } else {
            idxs.len()
        },
        _ => 0,
    }
}

/// The instance of the function at position `i` of a module: its body with its type, looked up
/// in the type section.
pub open spec fn spec_func_inst(m: ModuleView, i: int) -> Result<InternalFuncInstView, RuntimeError> {
    let body: FunctionView = m.code_section.unwrap()[i];
    let type_idx = m.function_section.unwrap()[i];
    match m.type_section {
        None => Err(RuntimeError::TypeSectionNotFound),
        Some(types) => if type_idx < types.len() {
            Ok(
                InternalFuncInstView {
                    func_type: types[type_idx as int],
                    code: FuncView { locals: expand_locals(body.locals), body: body.code },
                },
            )
        } else {
            Err(RuntimeError::FuncTypeNotFound)
        },
    }
}

/// The instances of the first `n` functions of a module, or the first error among them.
pub open spec fn spec_funcs(m: ModuleView, n: nat) -> Result<Seq<InternalFuncInstView>, RuntimeError>
    decreases n,
{
    if n == 0 {
        Ok(Seq::empty())
    } else {
        match spec_funcs(m, (n - 1) as nat) {
            Ok(fs) => match spec_func_inst(m, n - 1) {
                Ok(f) => Ok(fs.push(f)),
                Err(e) => Err(e),
            },
            Err(e) => Err(e),
        }
    }
}

/// The store that a module gives.
pub open spec fn spec_store(m: ModuleView) -> Result<Seq<InternalFuncInstView>, RuntimeError> {
    spec_funcs(m, func_count(m))
}

/// Once the instances fail, more of them fail the same way.
pub proof fn lemma_funcs_error(m: ModuleView, i: nat, n: nat)
    requires
        i <= n,
        spec_funcs(m, i) is Err,
    ensures
        spec_funcs(m, n) == spec_funcs(m, i),
    decreases n,
{
    if n > i {
        lemma_funcs_error(m, i, (n - 1) as nat);
    }
}

/// The instances of the first `n` functions, when they can all be built, are `n` in number.
proof fn lemma_funcs_len(m: ModuleView, n: nat)
    ensures
        spec_funcs(m, n) matches Ok(fs) ==> fs.len() == n,
    decreases n,
{
    if n > 0 {
        lemma_funcs_len(m, (n - 1) as nat);
    }
}

/// A store holds one function instance for each function body that has a type index beside it:
/// the pairing stops at the shorter of the code and function sections.
pub proof fn law_store_len(m: ModuleView)
    ensures
        spec_store(m) matches Ok(fs) ==> fs.len() == func_count(m),
{
    lemma_funcs_len(m, func_count(m));
}

/// The number of locals that the declarations `locals` declare: the sum of their counts.
pub open spec fn total_locals(locals: Seq<FunctionLocal>) -> nat
    decreases locals.len(),
{
    if locals.len() == 0 {
        0
    } else {
        total_locals(locals.drop_last()) + locals.last().type_count as nat
    }
}

/// One declaration of `type_count` locals of a type gives that many locals, all of that type.
pub proof fn law_expand_single(d: FunctionLocal)
    ensures
        expand_locals(seq![d]).len() == d.type_count,
        forall|k: int| 0 <= k < d.type_count ==> #[trigger] expand_locals(seq![d])[k] == d.value_type,
{
    assert(seq![d].drop_last() == Seq::<FunctionLocal>::empty());
    assert(seq![d].last() == d);
    let r = Seq::new(d.type_count as nat, |_i: int| d.value_type);
    assert(expand_locals(Seq::<FunctionLocal>::empty()) == Seq::<ValueType>::empty());
    assert(expand_locals(seq![d]) == Seq::<ValueType>::empty() + r);
    assert(Seq::<ValueType>::empty() + r == r);
}

/// The locals of two lists of declarations, one after the other, are those of the first list
/// followed by those of the second.
pub proof fn law_expand_append(a: Seq<FunctionLocal>, b: Seq<FunctionLocal>)
    ensures
        expand_locals(a + b) == expand_locals(a) + expand_locals(b),
    decreases b.len(),
{
    if b.len() == 0 {
        assert(a + b == a);
        assert(expand_locals(a) + expand_locals(b) == expand_locals(a));
    } else {
        law_expand_append(a, b.drop_last());
        assert((a + b).drop_last() == a + b.drop_last());
        assert((a + b).last() == b.last());
    }
}

/// The declarations give as many locals as the sum of their counts.
pub proof fn law_expand_len(locals: Seq<FunctionLocal>)
    ensures
        expand_locals(locals).len() == total_locals(locals),
    decreases locals.len(),
{
    if locals.len() > 0 {
        law_expand_len(locals.drop_last());
    }
}

/// Declaration `j` gives the locals that follow those of the declarations before it: local
/// `k` of it, for `k` below its count, has its type.
pub proof fn law_expand_position(locals: Seq<FunctionLocal>, j: int, k: int)
    requires
        0 <= j < locals.len(),
        0 <= k < locals[j].type_count,
    ensures
        total_locals(locals.take(j)) + k < expand_locals(locals).len(),
        expand_locals(locals)[total_locals(locals.take(j)) + k] == locals[j].value_type,
{
    let front = locals.take(j);
    let d = locals[j];
    let back = locals.skip(j + 1);
    assert(locals == front + seq![d] + back);
    law_expand_append(front + seq![d], back);
    law_expand_append(front, seq![d]);
    law_expand_single(d);
    law_expand_len(front);
    let i = total_locals(front) + k;
    assert(expand_locals(front + seq![d])[i] == expand_locals(seq![d])[k]);
}

/// The instances of the first `n` functions can all be built exactly when there are none, or
/// the module has a type section and each of their type indices is within it; then instance
/// `i` has the type that its type index names, the instructions of body `i`, and the locals
/// that body `i` declares.
proof fn lemma_funcs(m: ModuleView, n: nat)
    requires
        n <= func_count(m),
    ensures
        spec_funcs(m, n) is Ok <==> (n == 0 || (m.type_section is Some && forall|i: int|
            0 <= i < n ==> #[trigger] m.function_section.unwrap()[i] < m.type_section.unwrap().len())),
        spec_funcs(m, n) matches Ok(fs) ==> {
            &&& fs.len() == n
            &&& forall|i: int| 0 <= i < n ==> {
                &&& (#[trigger] fs[i]).func_type == m.type_section.unwrap()[m.function_section.unwrap()[i] as int]
                &&& fs[i].code.body == m.code_section.unwrap()[i].code
                &&& fs[i].code.locals == expand_locals(m.code_section.unwrap()[i].locals)
            }
        },
    decreases n,
{
    if n > 0 {
        lemma_funcs(m, (n - 1) as nat);
        if spec_funcs(m, n) is Ok {
            let fs = spec_funcs(m, n).unwrap();
            let prev = spec_funcs(m, (n - 1) as nat).unwrap();
            assert(fs == prev.push(spec_func_inst(m, n - 1).unwrap()));
            assert forall|i: int| 0 <= i < n implies #[trigger] m.function_section.unwrap()[i]
                < m.type_section.unwrap().len() by {
                if i < n - 1 {
                    assert(m.function_section.unwrap()[i] < m.type_section.unwrap().len());
                }
            }
        } else {
            if m.type_section is Some && forall|i: int|
                0 <= i < n ==> #[trigger] m.function_section.unwrap()[i] < m.type_section.unwrap().len() {
                assert(m.function_section.unwrap()[n - 1] < m.type_section.unwrap().len());
                assert(spec_funcs(m, (n - 1) as nat) is Ok);
            }
        }
    }
}

/// A store holds one function instance per function body that has a type index beside it (the
/// pairing stops at the shorter of the code and function sections). It can be built exactly
/// when there are no such bodies, or the module has a type section and every paired type index
/// is within it. Instance `i` then has the type at type index `function_section[i]`, whatever
/// `i` is, the instructions of body `i`, and the locals that body `i` declares.
pub proof fn law_store_instances(m: ModuleView)
    ensures
        ({
            let n: int = match (m.code_section, m.function_section) {
                (Some(code), Some(idxs)) => if code.len() <= idxs.len() { code.len() as int } else { idxs.len() as int },
                _ => 0,
            };
            &&& spec_store(m) is Ok <==> (n == 0 || (m.type_section is Some && forall|i: int|
                0 <= i < n ==> #[trigger] m.function_section.unwrap()[i] < m.type_section.unwrap().len()))
            &&& spec_store(m) matches Ok(fs) ==> {
                &&& fs.len() == n
                &&& forall|i: int| 0 <= i < n ==> {
                    &&& (#[trigger] fs[i]).func_type == m.type_section.unwrap()[m.function_section.unwrap()[i] as int]
                    &&& fs[i].code.body == m.code_section.unwrap()[i].code
                    &&& fs[i].code.locals == expand_locals(m.code_section.unwrap()[i].locals)
                }
            }
        }),
{
    lemma_funcs(m, func_count(m));
}

/// Lists the types of the locals that `locals` declares, one entry per local.
fn expand(locals: &Vec<FunctionLocal>) -> (res: Vec<ValueType>)
    ensures
        res@ == expand_locals(locals@),
{
    let mut res: Vec<ValueType> = Vec::with_capacity(locals.len());
    for i in 0..locals.len()
        invariant
            res@ == expand_locals(locals@.take(i as int)),
    {
        let local = locals[i];
        let ghost before = res@;
        for j in 0..local.type_count
            invariant
                res@ == before + Seq::new(j as nat, |_k: int| local.value_type),
        {
            res.push(local.value_type);
            assert(res@ == before + Seq::new((j + 1) as nat, |_k: int| local.value_type));
        }
        assert(locals@.take(i + 1).drop_last() == locals@.take(i as int));
    }
    assert(locals@.take(locals.len() as int) == locals@);
    res
}

impl Store {
    /// Builds the function instances of a module: for each function body, in order, paired
    /// with the type index at the same position of the function section, its type from the type
    /// section, the types of its locals one entry per local, and its instructions. Exactly
    /// `spec_store`: the first body without a type section or whose type index is out of range
    /// gives the error.
    pub fn new(module: Module) -> (res: Result<Store, RuntimeError>)
        ensures
            match spec_store(module@) {
                Ok(fs) => res matches Ok(store) && store@ == fs,
                Err(e) => res == Err::<Store, RuntimeError>(e),
            },
    {
        let empty: Vec<u32> = Vec::new();
        let func_type_idxs: &Vec<u32> = match module.function_section {
            Some(ref idxs) => idxs,
            _ => &empty,
        };
        let mut funcs: Vec<FuncInst> = Vec::new();
        assert(funcs_view(funcs@) == Seq::<InternalFuncInstView>::empty());
        if let Some(ref code_section) = module.code_section {
            let n = if code_section.len() <= func_type_idxs.len() {
                code_section.len()
            } else {
                func_type_idxs.len()
            };
            assert(n == func_count(module@));
            for i in 0..n
                invariant
                    n == func_count(module@),
                    n <= code_section.len(),
                    n <= func_type_idxs.len(),
                    module.code_section == Some(*code_section),
                    module.function_section is Some ==> module.function_section == Some(*func_type_idxs),
                    n > 0 ==> module.function_section is Some,
                    spec_funcs(module@, i as nat) == Ok::<_, RuntimeError>(funcs_view(funcs@)),
            {
                let func_body = &code_section[i];
                let type_idx = func_type_idxs[i];
                assert(module@.code_section.unwrap()[i as int] == func_body@);
                assert(module@.function_section.unwrap()[i as int] == type_idx);
                let func_types = match module.type_section {
                    Some(ref func_types) => func_types,
                    None => {
                        proof {
                            lemma_funcs_error(module@, (i + 1) as nat, n as nat);
                        }
                        return Err(RuntimeError::TypeSectionNotFound);
                    },
                };
                if type_idx as usize >= func_types.len() {
                    proof {
                        lemma_funcs_error(module@, (i + 1) as nat, n as nat);
                    }
                    return Err(RuntimeError::FuncTypeNotFound);
                }
                let func_type = &func_types[type_idx as usize];
                let locals = expand(&func_body.locals);
                let func = FuncInst::Internal(
                    InternalFuncInst {
                        func_type: func_type.clone(),
                        code: Func { locals, body: copy_instructions(&func_body.code) },
                    },
                );
                let ghost old_funcs = funcs@;
                funcs.push(func);
                assert(funcs_view(funcs@) == funcs_view(old_funcs).push(func@));
            }
        }
        Ok(Store { funcs })
    }
}

} // verus!
