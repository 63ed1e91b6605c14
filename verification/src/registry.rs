//! The function registry: one table keyed by id, searched by name.

use vstd::prelude::*;
use crate::error::ErrorVm;
use crate::expr::FunctionId;
use crate::functions::{serves, wf_params, FunDef, FunVM, FunVm, Param};
use crate::text::str_eq;
use crate::value::AlgebraicType;

verus! {

/// What the registry holds of one function: its signature and its callable.
pub struct Entry<F: FunVM> {
    pub def: FunDef,
    pub fun: FunVm<F>,
}

impl<F: FunVM> Entry<F> {
    /// Whether the entry is in order at position `i` of the table: the
    /// signature is well formed, the function value carries the signature's
    /// name and the id `i`, and the callable may be called on the arguments
    /// that the signature admits.
    pub open spec fn coherent(&self, i: int) -> bool {
        &&& self.def.wf()
        &&& self.fun.name@ == self.def.name@
        &&& self.fun.idx.0 == i
        &&& serves(self.fun.fun, self.def.params@)
    }
}

/// The functions of one program, in the order of their registration. The id
/// of a function is its position; entries are added at the end and never
/// changed or removed.
pub struct Registry<F: FunVM> {
    entries: Vec<Entry<F>>,
}

impl<F: FunVM> View for Registry<F> {
    type V = Seq<Entry<F>>;

    /// The table: the entry of the function with id `i` is at position `i`.
    closed spec fn view(&self) -> Seq<Entry<F>> {
        self.entries@
    }
}

/// Whether `post` and `out` are what registering `callable` under `name`,
/// `params` and `result` makes of `pre`: a taken name is refused and
/// nothing changes; otherwise one entry is added at the end, under the
/// next id.
pub open spec fn registers<F: FunVM>(
    pre: Registry<F>,
    name: Seq<char>,
    params: Seq<Param>,
    result: AlgebraicType,
    callable: F,
    post: Registry<F>,
    out: Result<FunctionId, ErrorVm>,
) -> bool {
    if pre.has_name(name) {
        out == Err::<FunctionId, ErrorVm>(ErrorVm::DuplicateName) && post == pre
    } else {
        &&& out == Ok::<FunctionId, ErrorVm>(FunctionId(pre@.len() as usize))
        &&& post@.len() == pre@.len() + 1
        &&& post@.drop_last() == pre@
        &&& post@.last().def.name@ == name
        &&& post@.last().def.params@ == params
        &&& post@.last().def.result == result
        &&& post@.last().fun.name@ == name
        &&& post@.last().fun.idx == FunctionId(pre@.len() as usize)
        &&& post@.last().fun.fun == callable
    }
}

impl<F: FunVM> Registry<F> {
    /// The invariant of the registry: every entry is in order at its
    /// position, and no name occurs twice.
    pub open spec fn wf(&self) -> bool {
        &&& forall|i: int| 0 <= i < self@.len() ==> (#[trigger] self@[i]).coherent(i)
        &&& forall|i: int, j: int|
            0 <= i < j < self@.len() ==> (#[trigger] self@[i]).def.name@ != (
            #[trigger] self@[j]).def.name@
    }

    /// Whether a function is registered under `name`.
    pub open spec fn has_name(&self, name: Seq<char>) -> bool {
        exists|i: int| 0 <= i < self@.len() && (#[trigger] self@[i]).def.name@ == name
    }

    /// The id under which `name` is registered, if it is.
    pub open spec fn id_of(&self, name: Seq<char>) -> Option<FunctionId> {
        if self.has_name(name) {
            let i = choose|i: int| 0 <= i < self@.len() && (#[trigger] self@[i]).def.name@ == name;
            Some(FunctionId(i as usize))
        } else {
            None
        }
    }

    /// The function registered under `id`, if there is one.
    pub open spec fn fun_of(&self, id: FunctionId) -> Option<FunVm<F>> {
        if id.0 < self@.len() {
            Some(self@[id.0 as int].fun)
        } else {
            None
        }
    }

    /// The signature registered under `id`, if there is one.
    pub open spec fn def_of(&self, id: FunctionId) -> Option<FunDef> {
        if id.0 < self@.len() {
            Some(self@[id.0 as int].def)
        } else {
            None
        }
    }

    /// An empty registry.
    pub fn new() -> (out: Self)
        ensures
            out@.len() == 0,
            out.wf(),
    {
        Self { entries: Vec::new() }
    }

    /// The number of registered functions, which is also the next id.
    pub fn len(&self) -> (n: usize)
        ensures
            n == self@.len(),
    {
        self.entries.len()
    }

    /// Registers `callable` under `name` with the given signature. A name
    /// that is already taken is refused and the registry stays as it was;
    /// otherwise the function gets the next id.
    pub fn register(
        &mut self,
        name: &str,
        params: &[Param],
        result: AlgebraicType,
        callable: F,
    ) -> (out: Result<FunctionId, ErrorVm>)
        requires
            old(self).wf(),
            wf_params(params@),
            serves(callable, params@),
        ensures
            final(self).wf(),
            registers(*old(self), name@, params@, result, callable, *final(self), out),
    {
        if self.resolve_by_name(name).is_some() {
            return Err(ErrorVm::DuplicateName);
        }
        let id = FunctionId(self.entries.len());
        let def = FunDef::new(name, params, result);
        let fun = FunVm::new(name, id, callable);
        self.entries.push(Entry { def, fun });
        proof {
            assert(final(self)@.drop_last() == old(self)@);
            assert forall|i: int| 0 <= i < self@.len() implies (#[trigger] self@[i]).coherent(i) by {
                if i < old(self)@.len() {
                    assert(self@[i] == old(self)@[i]);
                }
            }
            assert forall|i: int, j: int| 0 <= i < j < self@.len() implies (#[trigger] self@[i]).def.name@
                != (#[trigger] self@[j]).def.name@ by {
                assert(self@[i] == old(self)@[i]);
                if j < old(self)@.len() {
                    assert(self@[j] == old(self)@[j]);
                }
            }
        }
        Ok(id)
    }

    /// The id of the function registered under `name`.
    pub fn resolve_by_name(&self, name: &str) -> (out: Option<FunctionId>)
        requires
            self.wf(),
        ensures
            out == self.id_of(name@),
    {
        let mut i: usize = 0;
        while i < self.entries.len()
            invariant
                self.wf(),
                i <= self@.len(),
                forall|j: int| 0 <= j < i ==> (#[trigger] self@[j]).def.name@ != name@,
            decreases self@.len() - i,
        {
            if str_eq(self.entries[i].def.name.as_str(), name) {
                proof {
                    assert(self@[i as int].def.name@ == name@);
                    let k = choose|k: int| 0 <= k < self@.len() && (#[trigger] self@[k]).def.name@ == name@;
                    assert(k == i) by {
                        if k < i {
                            assert(self@[k].def.name@ != self@[i as int].def.name@);
                        } else if k > i {
                            assert(self@[i as int].def.name@ != self@[k].def.name@);
                        }
                    }
                }
                return Some(FunctionId(i));
            }
            i += 1;
        }
        None
    }

    /// The function registered under `id`.
    pub fn resolve_by_id(&self, id: FunctionId) -> (out: Option<&FunVm<F>>)
        ensures
            out.is_some() == self.fun_of(id).is_some(),
            out matches Some(f) ==> Some(*f) == self.fun_of(id),
    {
        if id.0 < self.entries.len() {
            Some(&self.entries[id.0].fun)
        } else {
            None
        }
    }

    /// The signature registered under `id`.
    pub fn signature(&self, id: FunctionId) -> (out: Option<&FunDef>)
        ensures
            out.is_some() == self.def_of(id).is_some(),
            out matches Some(d) ==> Some(*d) == self.def_of(id),
    {
        if id.0 < self.entries.len() {
            Some(&self.entries[id.0].def)
        } else {
            None
        }
    }
}

} // verus!
