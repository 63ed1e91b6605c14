//! Function descriptors, argument shapes and callable function values.

use vstd::prelude::*;
use crate::error::ErrorVm;
use crate::expr::{Code, FunctionId};
use crate::program::{ProgramRef, ProgramVm};
use crate::value::{AlgebraicType, AlgebraicValue};

verus! {

/// One formal parameter of a function.
#[derive(Debug, PartialEq, Eq)]
pub struct Param {
    pub name: String,
    pub kind: AlgebraicType,
    /// Whether this parameter takes every remaining argument.
    pub variadic: bool,
}

impl Param {
    /// A parameter that takes exactly one argument of type `kind`.
    pub fn new(name: &str, kind: AlgebraicType) -> (out: Self)
        ensures
            out.name@ == name@,
            out.kind == kind,
            !out.variadic,
    {
        Self { name: name.to_owned(), kind, variadic: false }
    }

    /// A parameter that takes any number of arguments of type `kind`.
    pub fn splat(name: &str, kind: AlgebraicType) -> (out: Self)
        ensures
            out.name@ == name@,
            out.kind == kind,
            out.variadic,
    {
        Self { name: name.to_owned(), kind, variadic: true }
    }
}

impl Clone for Param {
    fn clone(&self) -> (out: Self)
        ensures
            out == *self,
    {
        Self { name: self.name.clone(), kind: self.kind, variadic: self.variadic }
    }
}

/// Whether a parameter list is one that a function may declare: every name
/// is non-empty, no name occurs twice, and only the last parameter may be
/// variadic.
pub open spec fn wf_params(params: Seq<Param>) -> bool {
    &&& forall|i: int| 0 <= i < params.len() ==> (#[trigger] params[i]).name@.len() > 0
    &&& forall|i: int, j: int|
        0 <= i < j < params.len() ==> (#[trigger] params[i]).name@ != (#[trigger] params[j]).name@
    &&& forall|i: int| 0 <= i < params.len() - 1 ==> !(#[trigger] params[i]).variadic
}

/// Whether the last parameter takes every remaining argument.
pub open spec fn is_variadic(params: Seq<Param>) -> bool {
    params.len() > 0 && params.last().variadic
}

/// The declared arity: the number of parameters that take one argument each.
pub open spec fn arity(params: Seq<Param>) -> nat {
    if is_variadic(params) {
        (params.len() - 1) as nat
    } else {
        params.len()
    }
}

/// Whether a call with `n` arguments has the right number of them: the
/// declared arity, or at least that many where the last parameter is variadic.
pub open spec fn accepts_arity(params: Seq<Param>, n: nat) -> bool {
    if is_variadic(params) {
        n >= arity(params)
    } else {
        n == arity(params)
    }
}

/// The type declared for the argument at position `i`: that of the
/// parameter at `i`, or of the variadic parameter past the fixed ones.
pub open spec fn kind_at(params: Seq<Param>, i: int) -> AlgebraicType {
    if i < params.len() {
        params[i].kind
    } else {
        params.last().kind
    }
}

/// Whether every argument has the type declared for its position.
pub open spec fn accepts_types(params: Seq<Param>, args: Seq<AlgebraicValue>) -> bool {
    forall|i: int| 0 <= i < args.len() ==> (#[trigger] args[i]).kind() == kind_at(params, i)
}

/// What is wrong with a call on `args` of a function that declares `params`,
/// the arity being checked first; `None` where the call is in order.
pub open spec fn check(params: Seq<Param>, args: Seq<AlgebraicValue>) -> Option<ErrorVm> {
    if !accepts_arity(params, args.len()) {
        Some(ErrorVm::ArityMismatch)
    } else if !accepts_types(params, args) {
        Some(ErrorVm::TypeMismatch)
    } else {
        None
    }
}

/// The static signature of a callable: its name, its parameters in order,
/// and the type of its result.
#[derive(Debug, Clone, PartialEq, Eq)]
pub struct FunDef {
    pub name: String,
    pub params: Vec<Param>,
    pub result: AlgebraicType,
}

impl FunDef {
    /// The invariant of a signature: its parameter list is well formed.
    pub open spec fn wf(&self) -> bool {
        wf_params(self.params@)
    }

    /// Whether the last parameter takes every remaining argument.
    pub open spec fn is_variadic(&self) -> bool {
        is_variadic(self.params@)
    }

    /// The declared arity: the number of parameters that take one argument each.
    pub open spec fn arity(&self) -> nat {
        arity(self.params@)
    }

    /// What is wrong with a call on `args`, the arity being checked first.
    pub open spec fn check(&self, args: Seq<AlgebraicValue>) -> Option<ErrorVm> {
        check(self.params@, args)
    }

    /// The signature of the function `name` with the parameters `params`,
    /// in their order, and the result type `result`.
    pub fn new(name: &str, params: &[Param], result: AlgebraicType) -> (out: Self)
        requires
            wf_params(params@),
        ensures
            out.name@ == name@,
            out.params@ == params@,
            out.result == result,
            out.wf(),
    {
        let mut owned: Vec<Param> = Vec::new();
        let mut i: usize = 0;
        while i < params.len()
            invariant
                i <= params@.len(),
                owned@ == params@.take(i as int),
            decreases params@.len() - i,
        {
            owned.push(params[i].clone());
            assert(params@.take(i + 1) == params@.take(i as int).push(params@[i as int]));
            i += 1;
        }
        assert(params@.take(i as int) == params@);
        Self { name: name.to_owned(), params: owned, result }
    }

    /// Tells whether a call on `args` respects this signature, and if not,
    /// what is wrong with it.
    pub fn check_args(&self, args: &Args<'_>) -> (out: Option<ErrorVm>)
        ensures
            out == self.check(args@),
    {
        let n = args.arity();
        let declared = self.params.len();
        let variadic = declared > 0 && self.params[declared - 1].variadic;
        if variadic {
            if n < declared - 1 {
                return Some(ErrorVm::ArityMismatch);
            }
        } else if n != declared {
            return Some(ErrorVm::ArityMismatch);
        }
        let mut i: usize = 0;
        while i < n
            invariant
                n == args@.len(),
                declared == self.params@.len(),
                accepts_arity(self.params@, args@.len()),
                i <= n,
                forall|j: int| 0 <= j < i ==> (#[trigger] args@[j]).kind() == kind_at(self.params@, j),
            decreases n - i,
        {
            let expected = if i < declared {
                self.params[i].kind
            } else {
                self.params[declared - 1].kind
            };
            if args.get(i).type_of() != expected {
                assert(args@[i as int].kind() != kind_at(self.params@, i as int));
                return Some(ErrorVm::TypeMismatch);
            }
            i += 1;
        }
        None
    }
}

/// The arguments of one call, borrowed from the caller: one value, two
/// values, or a sequence of any length.
#[derive(Debug, Clone, Copy, PartialEq, Eq, PartialOrd, Ord)]
pub enum Args<'a> {
    Unary(&'a AlgebraicValue),
    Binary(&'a AlgebraicValue, &'a AlgebraicValue),
    Splat(&'a [AlgebraicValue]),
}

impl<'a> View for Args<'a> {
    type V = Seq<AlgebraicValue>;

    /// The arguments in order.
    open spec fn view(&self) -> Seq<AlgebraicValue> {
        match *self {
            Args::Unary(a) => seq![*a],
            Args::Binary(a, b) => seq![*a, *b],
            Args::Splat(s) => s@,
        }
    }
}

impl<'a> Args<'a> {
    /// Whether the variant is the cheapest one for its number of arguments:
    /// a sequence is used for neither one nor two arguments.
    pub open spec fn is_shaped(&self) -> bool {
        match *self {
            Args::Unary(_) => true,
            Args::Binary(_, _) => true,
            Args::Splat(s) => s@.len() != 1 && s@.len() != 2,
        }
    }

    /// The number of arguments.
    pub fn arity(&self) -> (n: usize)
        ensures
            n == self@.len(),
    {
        match self {
            Args::Unary(_) => 1,
            Args::Binary(_, _) => 2,
            Args::Splat(s) => s.len(),
        }
    }

    /// The argument at position `i`.
    pub fn get(&self, i: usize) -> (out: &'a AlgebraicValue)
        requires
            i < self@.len(),
        ensures
            *out == self@[i as int],
    {
        match self {
            Args::Unary(a) => a,
            Args::Binary(a, b) => if i == 0 { a } else { b },
            Args::Splat(s) => &s[i],
        }
    }

    /// Presents `vals` in the variant that their number calls for.
    pub fn shaped(vals: &'a [AlgebraicValue]) -> (out: Self)
        ensures
            out@ == vals@,
            out.is_shaped(),
            out is Unary <==> vals@.len() == 1,
            out is Binary <==> vals@.len() == 2,
    {
        if vals.len() == 1 {
            Args::Unary(&vals[0])
        } else if vals.len() == 2 {
            Args::Binary(&vals[0], &vals[1])
        } else {
            Args::Splat(vals)
        }
    }
}

/// A callable that can be duplicated: what a registry stores for a function.
/// It is pure: it reads nothing but the program view and the arguments that
/// it is given.
pub trait FunVM: Clone + for<'a> Fn(ProgramRef<'a>, Args<'a>) -> Code {
    /// A duplicate of this callable: what `clone` makes of it.
    fn clone_object(&self) -> (out: Self)
        ensures
            cloned(*self, out),
    ;
}

impl<F> FunVM for F where F: Clone + for<'a> Fn(ProgramRef<'a>, Args<'a>) -> Code {
    fn clone_object(&self) -> (out: Self) {
        self.clone()
    }
}

/// Whether `f` may be called on every argument list that a function with
/// the parameters `params` admits, whatever the program view.
pub open spec fn serves<F: FunVM>(f: F, params: Seq<Param>) -> bool {
    forall|p: ProgramRef<'_>, a: Args<'_>|
        check(params, a@) is None ==> #[trigger] call_requires(f, (p, a))
}

/// A registered function: its name, its id, and its callable.
#[derive(Clone)]
pub struct FunVm<F: FunVM> {
    pub name: String,
    pub idx: FunctionId,
    pub fun: F,
}

impl<F: FunVM> FunVm<F> {
    /// The function `name` with the id `idx` and the callable `fun`.
    pub fn new(name: &str, idx: FunctionId, fun: F) -> (out: Self)
        ensures
            out.name@ == name@,
            out.idx == idx,
            out.fun == fun,
    {
        Self { name: name.to_owned(), idx, fun }
    }

    /// Runs the callable on `args` against the view that `p` gives of itself.
    /// The view is whatever `p` hands out; the result is what the callable
    /// returns on that view and `args`.
    pub fn call<'a, P: ProgramVm>(&self, p: &'a P, args: Args<'a>) -> (out: Code)
        requires
            forall|r: ProgramRef<'a>| call_requires(self.fun, (r, args)),
        ensures
            exists|r: ProgramRef<'a>|
                call_ensures(P::as_program_ref, (p,), r) && call_ensures(self.fun, (r, args), out),
    {
        let r = p.as_program_ref();
        (self.fun)(r, args)
    }
}

/// A compiled function body under its signature. Column `i` of the body
/// stands for parameter `i` of the head.
#[derive(Debug, Clone)]
pub struct Lambda {
    pub head: FunDef,
    pub body: Code,
}

impl Lambda {
    /// The invariant of a lambda: the head is well formed, and every column
    /// that the body refers to is one of the head's fixed parameters.
    pub open spec fn wf(&self) -> bool {
        self.head.wf() && self.body.columns_below(self.head.arity())
    }

    /// Puts `body` under `head`, unless the body refers to a column that
    /// is no fixed parameter of the head.
    pub fn new(head: FunDef, body: Code) -> (out: Option<Self>)
        requires
            head.wf(),
        ensures
            out is Some <==> body.columns_below(head.arity()),
            out matches Some(lambda) ==> lambda.head == head && lambda.body == body && lambda.wf(),
    {
        let declared = head.params.len();
        let fixed = if declared > 0 && head.params[declared - 1].variadic {
            declared - 1
        } else {
            declared
        };
        if body.has_columns_below(fixed) {
            Some(Self { head, body })
        } else {
            None
        }
    }
}

} // verus!
