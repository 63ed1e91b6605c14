//! Checked calls and the reduction of expression trees.
//!
//! A callable is a closure of the embedding program, so what a call returns
//! is known only as a relation between its inputs and its result. The
//! contracts here are therefore relations too: they say which outcomes a
//! reduction can have, and pin every decision that the reducer itself takes.

use vstd::prelude::*;
use crate::error::ErrorVm;
use crate::expr::{Code, FunctionId};
use crate::functions::{Args, FunVM, Lambda};
use crate::program::{ProgramRef, ProgramVm};
use crate::registry::Registry;
use crate::value::AlgebraicValue;

verus! {

/// Whether `out` can come of calling the function `id` of `reg` on `args`
/// against the view `p`: an id without entry is unknown; then the number of
/// the arguments is checked, then their types; a call that is in order
/// gives what the callable returns.
pub open spec fn call_outcome<F: FunVM>(
    reg: Registry<F>,
    p: ProgramRef<'_>,
    id: FunctionId,
    args: Args<'_>,
    out: Result<Code, ErrorVm>,
) -> bool {
    match reg.def_of(id) {
        None => out == Err::<Code, ErrorVm>(ErrorVm::UnknownFunction(id)),
        Some(def) => match def.check(args@) {
            Some(e) => out == Err::<Code, ErrorVm>(e),
            None => out matches Ok(c) && call_ensures(reg@[id.0 as int].fun.fun, (p, args), c),
        },
    }
}

/// What an outcome is worth as an argument: its value where it is final;
/// a type mismatch where it is a node that was not reduced to a value.
pub open spec fn value_of(o: Result<Code, ErrorVm>) -> Result<AlgebraicValue, ErrorVm> {
    match o {
        Err(e) => Err(e),
        Ok(Code::Value(v)) => Ok(v),
        Ok(_) => Err(ErrorVm::TypeMismatch),
    }
}

/// What an outcome is worth as an operand of a connective: its truth value
/// where it is a final boolean; a type mismatch where it is anything else.
pub open spec fn truth_of(o: Result<Code, ErrorVm>) -> Result<bool, ErrorVm> {
    match o {
        Err(e) => Err(e),
        Ok(Code::Value(AlgebraicValue::Bool(b))) => Ok(b),
        Ok(_) => Err(ErrorVm::TypeMismatch),
    }
}

/// The outcome that carries a truth value, or passes the error on.
pub open spec fn of_truth(t: Result<bool, ErrorVm>) -> Result<Code, ErrorVm> {
    match t {
        Err(e) => Err(e),
        Ok(b) => Ok(Code::truth(b)),
    }
}

/// Whether `vals` can be the values of the first arguments of a call: there
/// are no more of them than arguments.
pub open spec fn values_of_prefix(vals: Seq<AlgebraicValue>, args: Seq<Code>) -> bool {
    vals.len() <= args.len()
}

/// Whether `out` can come of reducing `code` with the functions of `reg`
/// against the view `p`.
///
/// A value reduces to itself, a column to the value that the row holds at
/// its position; a row without that column is not of the type that the
/// code was compiled for. A call reduces its arguments from left to
/// right; the first that fails, or does not reduce to a value, ends the
/// reduction with its error; otherwise the values are shaped by their
/// number and the function is called. A conjunction reduces its left
/// operand, and its right one only where the left is true; a disjunction
/// reduces its right operand only where the left is false.
pub open spec fn eval_outcome<F: FunVM>(
    reg: Registry<F>,
    p: ProgramRef<'_>,
    code: Code,
    out: Result<Code, ErrorVm>,
) -> bool
    decreases code,
{
    match code {
        Code::Value(v) => out == Ok::<Code, ErrorVm>(Code::Value(v)),
        Code::Column(i) => out == (if i < p@.len() {
            Ok::<Code, ErrorVm>(Code::Value(p@[i as int]))
        } else {
            Err::<Code, ErrorVm>(ErrorVm::TypeMismatch)
        }),
        Code::CallFn(id, args) => exists|vals: Seq<AlgebraicValue>|
            {
                &&& #[trigger] values_of_prefix(vals, args@)
                &&& forall|i: int|
                    0 <= i < vals.len() ==> eval_outcome(
                        reg,
                        p,
                        #[trigger] args@[i],
                        Ok(Code::Value(vals[i])),
                    )
                &&& if vals.len() < args@.len() {
                    exists|bad: Result<Code, ErrorVm>|
                        {
                            &&& eval_outcome(reg, p, args@[vals.len() as int], bad)
                            &&& #[trigger] value_of(bad) matches Err(e)
                            &&& out == Err::<Code, ErrorVm>(e)
                        }
                } else {
                    exists|a: Args<'_>|
                        {
                            &&& a@ == vals
                            &&& a.is_shaped()
                            &&& #[trigger] call_outcome(reg, p, id, a, out)
                        }
                }
            },
        Code::And(l, r) => exists|lo: Result<Code, ErrorVm>|
            {
                &&& eval_outcome(reg, p, *l, lo)
                &&& match #[trigger] truth_of(lo) {
                    Err(e) => out == Err::<Code, ErrorVm>(e),
                    Ok(false) => out == Ok::<Code, ErrorVm>(Code::truth(false)),
                    Ok(true) => exists|ro: Result<Code, ErrorVm>|
                        eval_outcome(reg, p, *r, ro) && out == of_truth(#[trigger] truth_of(ro)),
                }
            },
        Code::Or(l, r) => exists|lo: Result<Code, ErrorVm>|
            {
                &&& eval_outcome(reg, p, *l, lo)
                &&& match #[trigger] truth_of(lo) {
                    Err(e) => out == Err::<Code, ErrorVm>(e),
                    Ok(true) => out == Ok::<Code, ErrorVm>(Code::truth(true)),
                    Ok(false) => exists|ro: Result<Code, ErrorVm>|
                        eval_outcome(reg, p, *r, ro) && out == of_truth(#[trigger] truth_of(ro)),
                }
            },
    }
}

/// A call whose argument after the values `vals` does not reduce to a
/// value ends with that argument's error.
pub proof fn lemma_call_stops<F: FunVM>(
    reg: Registry<F>,
    p: ProgramRef<'_>,
    id: FunctionId,
    args: Vec<Code>,
    vals: Seq<AlgebraicValue>,
    bad: Result<Code, ErrorVm>,
)
    requires
        vals.len() < args@.len(),
        forall|i: int|
            0 <= i < vals.len() ==> eval_outcome(
                reg,
                p,
                #[trigger] args@[i],
                Ok(Code::Value(vals[i])),
            ),
        eval_outcome(reg, p, args@[vals.len() as int], bad),
        value_of(bad) is Err,
    ensures
        eval_outcome(
            reg,
            p,
            Code::CallFn(id, args),
            Err::<Code, ErrorVm>(value_of(bad)->Err_0),
        ),
{
    assert(Code::CallFn(id, args)->CallFn_0 == id);
    assert(Code::CallFn(id, args)->CallFn_1 == args);
    assert(values_of_prefix(vals, args@));
}

/// A call whose arguments reduce to the values `vals` has the outcome of
/// calling the function on those values, shaped by their number.
pub proof fn lemma_call_runs<F: FunVM>(
    reg: Registry<F>,
    p: ProgramRef<'_>,
    id: FunctionId,
    args: Vec<Code>,
    vals: Seq<AlgebraicValue>,
    a: Args<'_>,
    out: Result<Code, ErrorVm>,
)
    requires
        vals.len() == args@.len(),
        forall|i: int|
            0 <= i < vals.len() ==> eval_outcome(
                reg,
                p,
                #[trigger] args@[i],
                Ok(Code::Value(vals[i])),
            ),
        a@ == vals,
        a.is_shaped(),
        call_outcome(reg, p, id, a, out),
    ensures
        eval_outcome(reg, p, Code::CallFn(id, args), out),
{
    assert(Code::CallFn(id, args)->CallFn_0 == id);
    assert(Code::CallFn(id, args)->CallFn_1 == args);
    assert(values_of_prefix(vals, args@));
}

/// Reads an outcome as a truth value.
fn as_truth(o: Result<Code, ErrorVm>) -> (t: Result<bool, ErrorVm>)
    ensures
        t == truth_of(o),
{
    match o {
        Err(e) => Err(e),
        Ok(Code::Value(AlgebraicValue::Bool(b))) => Ok(b),
        Ok(_) => Err(ErrorVm::TypeMismatch),
    }
}

/// Wraps a truth value as an outcome.
fn from_truth(t: Result<bool, ErrorVm>) -> (o: Result<Code, ErrorVm>)
    ensures
        o == of_truth(t),
{
    match t {
        Err(e) => Err(e),
        Ok(b) => Ok(Code::Value(AlgebraicValue::Bool(b))),
    }
}

impl<F: FunVM> Registry<F> {
    /// Calls the function `id` on `args` against the view `p`, after
    /// checking that the function exists and that the arguments match its
    /// signature in number and in type.
    pub fn call_in<'a>(&self, p: ProgramRef<'a>, id: FunctionId, args: Args<'a>) -> (out: Result<
        Code,
        ErrorVm,
    >)
        requires
            self.wf(),
        ensures
            call_outcome(*self, p, id, args, out),
    {
        let def = match self.signature(id) {
            Some(def) => def,
            None => {
                return Err(ErrorVm::UnknownFunction(id));
            },
        };
        if let Some(e) = def.check_args(&args) {
            return Err(e);
        }
        match self.resolve_by_id(id) {
            Some(f) => {
                assert(self@[id.0 as int].coherent(id.0 as int));
                Ok((f.fun)(p, args))
            },
            None => Err(ErrorVm::UnknownFunction(id)),
        }
    }

    /// Calls the function `id` on `args` against the view that `program`
    /// gives of itself. What the view is, `program` decides; for that view
    /// the outcome is that of [`Registry::call_in`].
    pub fn call<'a, P: ProgramVm>(&self, program: &'a P, id: FunctionId, args: Args<'a>) -> (out:
        Result<Code, ErrorVm>)
        requires
            self.wf(),
        ensures
            exists|p: ProgramRef<'a>|
                call_ensures(P::as_program_ref, (program,), p) && #[trigger] call_outcome(
                    *self,
                    p,
                    id,
                    args,
                    out,
                ),
    {
        let p = program.as_program_ref();
        self.call_in(p, id, args)
    }

    /// Reduces `code` against the view `p`.
    pub fn eval_in<'a>(&self, p: ProgramRef<'a>, code: &Code) -> (out: Result<Code, ErrorVm>)
        requires
            self.wf(),
        ensures
            eval_outcome(*self, p, *code, out),
        decreases *code,
    {
        match code {
            Code::Value(v) => Ok(Code::Value(v.clone())),
            Code::Column(i) => {
                if *i < p.row.len() {
                    Ok(Code::Value(p.row[*i].clone()))
                } else {
                    Err(ErrorVm::TypeMismatch)
                }
            },
            Code::CallFn(id, args) => {
                let mut vals: Vec<AlgebraicValue> = Vec::new();
                let mut i: usize = 0;
                while i < args.len()
                    invariant
                        self.wf(),
                        *code == Code::CallFn(*id, *args),
                        decreases_to!(*code => *args),
                        i <= args@.len(),
                        vals@.len() == i,
                        forall|j: int|
                            0 <= j < i ==> eval_outcome(
                                *self,
                                p,
                                #[trigger] args@[j],
                                Ok(Code::Value(vals@[j])),
                            ),
                    decreases args@.len() - i,
                {
                    proof {
                        assert(decreases_to!(*args => args[i as int]));
                    }
                    let reduced = self.eval_in(p, &args[i]);
                    let ghost bad = reduced;
                    match reduced {
                        Ok(Code::Value(v)) => {
                            vals.push(v);
                        },
                        Ok(_) => {
                            proof {
                                lemma_call_stops(*self, p, *id, *args, vals@, bad);
                            }
                            return Err(ErrorVm::TypeMismatch);
                        },
                        Err(e) => {
                            proof {
                                lemma_call_stops(*self, p, *id, *args, vals@, bad);
                            }
                            return Err(e);
                        },
                    }
                    i += 1;
                }
                let shaped = Args::shaped(vals.as_slice());
                let out = self.call_in(p, *id, shaped);
                proof {
                    lemma_call_runs(*self, p, *id, *args, vals@, shaped, out);
                }
                out
            },
            Code::And(l, r) => {
                let left = self.eval_in(p, l);
                let ghost lo = left;
                match as_truth(left) {
                    Err(e) => Err(e),
                    Ok(false) => Ok(Code::Value(AlgebraicValue::Bool(false))),
                    Ok(true) => {
                        let right = self.eval_in(p, r);
                        let ghost ro = right;
                        let out = from_truth(as_truth(right));
                        proof {
                            assert(eval_outcome(*self, p, **l, lo));
                            assert(eval_outcome(*self, p, **r, ro));
                        }
                        out
                    },
                }
            },
            Code::Or(l, r) => {
                let left = self.eval_in(p, l);
                let ghost lo = left;
                match as_truth(left) {
                    Err(e) => Err(e),
                    Ok(true) => Ok(Code::Value(AlgebraicValue::Bool(true))),
                    Ok(false) => {
                        let right = self.eval_in(p, r);
                        let ghost ro = right;
                        let out = from_truth(as_truth(right));
                        proof {
                            assert(eval_outcome(*self, p, **l, lo));
                            assert(eval_outcome(*self, p, **r, ro));
                        }
                        out
                    },
                }
            },
        }
    }

    /// Reduces `code` against the view that `program` gives of itself. What
    /// the view is, `program` decides; for that view the outcome is that of
    /// [`Registry::eval_in`].
    pub fn eval<P: ProgramVm>(&self, program: &P, code: &Code) -> (out: Result<Code, ErrorVm>)
        requires
            self.wf(),
        ensures
            exists|p: ProgramRef<'_>|
                call_ensures(P::as_program_ref, (program,), p) && #[trigger] eval_outcome(
                    *self,
                    p,
                    *code,
                    out,
                ),
    {
        let p = program.as_program_ref();
        self.eval_in(p, code)
    }
}

/// Whether `out` can come of applying `lambda` to `args`: the arguments
/// are checked against the head, in number and then in type; then the body
/// is reduced against a row that holds exactly the arguments.
pub open spec fn apply_outcome<F: FunVM>(
    reg: Registry<F>,
    lambda: Lambda,
    args: Args<'_>,
    out: Result<Code, ErrorVm>,
) -> bool {
    match lambda.head.check(args@) {
        Some(e) => out == Err::<Code, ErrorVm>(e),
        None => exists|p: ProgramRef<'_>| p@ == args@ && #[trigger] eval_outcome(reg, p, lambda.body, out),
    }
}

impl Lambda {
    /// Applies the lambda to `args`: its body is reduced with the
    /// arguments as the row, so that column `i` of the body is parameter
    /// `i` of the head.
    pub fn apply<F: FunVM>(&self, reg: &Registry<F>, args: Args<'_>) -> (out: Result<Code, ErrorVm>)
        requires
            reg.wf(),
        ensures
            apply_outcome(*reg, *self, args, out),
    {
        if let Some(e) = self.head.check_args(&args) {
            return Err(e);
        }
        let n = args.arity();
        let mut row: Vec<AlgebraicValue> = Vec::new();
        let mut i: usize = 0;
        while i < n
            invariant
                n == args@.len(),
                i <= n,
                row@ == args@.take(i as int),
            decreases n - i,
        {
            row.push(args.get(i).clone());
            assert(args@.take(i + 1) == args@.take(i as int).push(args@[i as int]));
            i += 1;
        }
        assert(args@.take(n as int) == args@);
        let p = ProgramRef { row: row.as_slice() };
        reg.eval_in(p, &self.body)
    }
}

} // verus!
