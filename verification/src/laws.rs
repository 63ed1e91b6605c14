//! What holds of the registry and of the reducer as a whole.

use vstd::prelude::*;
use crate::error::ErrorVm;
use crate::eval::{call_outcome, eval_outcome, of_truth, truth_of, value_of, values_of_prefix};
use crate::expr::{Code, FunctionId};
use crate::functions::{accepts_types, Args, FunVM, Lambda, Param};
use crate::program::ProgramRef;
use crate::registry::{registers, Registry};
use crate::value::{AlgebraicType, AlgebraicValue};

verus! {

/// Whether every callable of `reg` is a function of what it is handed:
/// called twice on equal program views and equal arguments, it returns the
/// same code.
pub open spec fn pure<F: FunVM>(reg: Registry<F>) -> bool {
    forall|i: int, p1: ProgramRef<'_>, p2: ProgramRef<'_>, a1: Args<'_>, a2: Args<'_>, c1: Code, c2: Code|
        0 <= i < reg@.len() && p1@ == p2@ && a1@ == a2@ && #[trigger] call_ensures(
            reg@[i].fun.fun,
            (p1, a1),
            c1,
        ) && #[trigger] call_ensures(reg@[i].fun.fun, (p2, a2), c2) ==> c1 == c2
}

/// Lookup by name and lookup by id agree: the name of every registered
/// function resolves to its id, and that id resolves to the function value
/// and the signature of the same entry, which carry the same name.
pub proof fn law_lookups_agree<F: FunVM>(reg: Registry<F>, i: int)
    requires
        reg.wf(),
        0 <= i < reg@.len(),
    ensures
        reg.id_of(reg@[i].def.name@) == Some(FunctionId(i as usize)),
        reg.fun_of(FunctionId(i as usize)) == Some(reg@[i].fun),
        reg.def_of(FunctionId(i as usize)) == Some(reg@[i].def),
        reg@[i].fun.name@ == reg@[i].def.name@,
        reg@[i].fun.idx == FunctionId(i as usize),
{
    let name = reg@[i].def.name@;
    assert(reg@[i].coherent(i));
    assert(reg.has_name(name));
    let k = choose|k: int| 0 <= k < reg@.len() && (#[trigger] reg@[k]).def.name@ == name;
    if k < i {
        assert(reg@[k].def.name@ != reg@[i].def.name@);
    } else if k > i {
        assert(reg@[i].def.name@ != reg@[k].def.name@);
    }
}

/// What was registered is found again: after a registration that
/// succeeded, the name resolves to the id that was handed out, and the id
/// to a signature with the name, the parameters and the result type that
/// were given.
pub proof fn law_registered_is_found<F: FunVM>(
    pre: Registry<F>,
    name: Seq<char>,
    params: Seq<Param>,
    result: AlgebraicType,
    callable: F,
    post: Registry<F>,
    id: FunctionId,
)
    requires
        post.wf(),
        registers(pre, name, params, result, callable, post, Ok(id)),
    ensures
        post.id_of(name) == Some(id),
        post.def_of(id) matches Some(def) && def.name@ == name && def.params@ == params
            && def.result == result,
        post.fun_of(id) matches Some(f) && f.name@ == name && f.idx == id && f.fun == callable,
{
    let i = pre@.len() as int;
    assert(post@.last() == post@[i]);
    assert(post@[i].coherent(i));
    law_lookups_agree(post, i);
}

/// Registration only adds: every function that was registered before keeps
/// its id, its signature and its callable.
pub proof fn law_registration_keeps_entries<F: FunVM>(
    pre: Registry<F>,
    name: Seq<char>,
    params: Seq<Param>,
    result: AlgebraicType,
    callable: F,
    post: Registry<F>,
    out: Result<FunctionId, ErrorVm>,
    i: int,
)
    requires
        registers(pre, name, params, result, callable, post, out),
        0 <= i < pre@.len(),
    ensures
        i < post@.len(),
        post@[i] == pre@[i],
{
    if !pre.has_name(name) {
        assert(post@.drop_last()[i] == post@[i]);
    }
}

/// Registration is injective: once a name is registered, registering it
/// again fails with `DuplicateName`, whatever signature and callable come
/// with it, and leaves the registry as it was.
pub proof fn law_duplicate_is_refused<F: FunVM>(
    r0: Registry<F>,
    name: Seq<char>,
    params1: Seq<Param>,
    result1: AlgebraicType,
    callable1: F,
    r1: Registry<F>,
    id: FunctionId,
    params2: Seq<Param>,
    result2: AlgebraicType,
    callable2: F,
    r2: Registry<F>,
    out: Result<FunctionId, ErrorVm>,
)
    requires
        registers(r0, name, params1, result1, callable1, r1, Ok(id)),
        registers(r1, name, params2, result2, callable2, r2, out),
    ensures
        out == Err::<FunctionId, ErrorVm>(ErrorVm::DuplicateName),
        r2 == r1,
{
    assert(r1@.last() == r1@[r1@.len() - 1]);
    assert(r1.has_name(name));
}

/// The arity law. A call of a registered function with a fixed number of
/// parameters fails with `ArityMismatch` exactly where the number of
/// arguments is not the declared arity; with the declared number of
/// arguments, each of the declared type, the callable runs. Where the last
/// parameter is variadic, the same holds with "fewer than" in place of
/// "not".
pub proof fn law_arity<F: FunVM>(
    reg: Registry<F>,
    p: ProgramRef<'_>,
    id: FunctionId,
    args: Args<'_>,
    out: Result<Code, ErrorVm>,
)
    requires
        id.0 < reg@.len(),
        call_outcome(reg, p, id, args, out),
    ensures
        ({
            let def = reg@[id.0 as int].def;
            let n = args@.len();
            &&& !def.is_variadic() ==> (out == Err::<Code, ErrorVm>(ErrorVm::ArityMismatch) <==> n
                != def.arity())
            &&& def.is_variadic() ==> (out == Err::<Code, ErrorVm>(ErrorVm::ArityMismatch) <==> n
                < def.arity())
            &&& out is Ok <==> def.check(args@) is None
            &&& out is Ok ==> call_ensures(reg@[id.0 as int].fun.fun, (p, args), out->Ok_0)
            &&& (!def.is_variadic() && n == def.arity() || def.is_variadic() && n >= def.arity())
                && accepts_types(def.params@, args@) ==> out is Ok
        }),
{
}

/// The short-circuit law of conjunction: where the left operand reduces to
/// false, the conjunction reduces to false whatever the right operand is,
/// also one whose own reduction would fail. With pure callables it reduces
/// to nothing else.
pub proof fn law_and_short_circuits<F: FunVM>(
    reg: Registry<F>,
    p: ProgramRef<'_>,
    l: Code,
    r: Code,
    out: Result<Code, ErrorVm>,
)
    requires
        eval_outcome(reg, p, l, Ok(Code::truth(false))),
    ensures
        eval_outcome(reg, p, Code::And(Box::new(l), Box::new(r)), Ok(Code::truth(false))),
        pure(reg) && eval_outcome(reg, p, Code::And(Box::new(l), Box::new(r)), out) ==> out == Ok::<
            Code,
            ErrorVm,
        >(Code::truth(false)),
{
    let node = Code::And(Box::new(l), Box::new(r));
    let lo = Ok::<Code, ErrorVm>(Code::truth(false));
    assert(truth_of(lo) == Ok::<bool, ErrorVm>(false));
    assert(eval_outcome(reg, p, node, lo));
    if pure(reg) && eval_outcome(reg, p, node, out) {
        law_deterministic(reg, p, p, node, lo, out);
    }
}

/// The short-circuit law of disjunction: where the left operand reduces to
/// true, the disjunction reduces to true whatever the right operand is.
/// With pure callables it reduces to nothing else.
pub proof fn law_or_short_circuits<F: FunVM>(
    reg: Registry<F>,
    p: ProgramRef<'_>,
    l: Code,
    r: Code,
    out: Result<Code, ErrorVm>,
)
    requires
        eval_outcome(reg, p, l, Ok(Code::truth(true))),
    ensures
        eval_outcome(reg, p, Code::Or(Box::new(l), Box::new(r)), Ok(Code::truth(true))),
        pure(reg) && eval_outcome(reg, p, Code::Or(Box::new(l), Box::new(r)), out) ==> out == Ok::<
            Code,
            ErrorVm,
        >(Code::truth(true)),
{
    let node = Code::Or(Box::new(l), Box::new(r));
    let lo = Ok::<Code, ErrorVm>(Code::truth(true));
    assert(truth_of(lo) == Ok::<bool, ErrorVm>(true));
    assert(eval_outcome(reg, p, node, lo));
    if pure(reg) && eval_outcome(reg, p, node, out) {
        law_deterministic(reg, p, p, node, lo, out);
    }
}

/// Code whose columns are among the first `n` has them among the first `m`
/// for every larger `m`.
pub proof fn lemma_columns_below_more(code: Code, n: nat, m: nat)
    requires
        code.columns_below(n),
        n <= m,
    ensures
        code.columns_below(m),
    decreases code,
{
    match code {
        Code::Value(_) => {},
        Code::Column(_) => {},
        Code::CallFn(_, args) => {
            assert forall|i: int| 0 <= i < args@.len() implies (#[trigger] args@[i]).columns_below(
                m,
            ) by {
                lemma_columns_below_more(args@[i], n, m);
            }
        },
        Code::And(l, r) => {
            lemma_columns_below_more(*l, n, m);
            lemma_columns_below_more(*r, n, m);
        },
        Code::Or(l, r) => {
            lemma_columns_below_more(*l, n, m);
            lemma_columns_below_more(*r, n, m);
        },
    }
}

/// The free variables of a lambda are its parameters: where a well-formed
/// lambda is applied to arguments that its head admits, every column of
/// its body is bound to one of them.
pub proof fn law_lambda_columns_are_bound(lambda: Lambda, args: Seq<AlgebraicValue>)
    requires
        lambda.wf(),
        lambda.head.check(args) is None,
    ensures
        lambda.body.columns_below(args.len()),
{
    lemma_columns_below_more(lambda.body, lambda.head.arity(), args.len());
}

/// Whether every callable of `reg` returns a final value, whatever it is
/// called on.
pub open spec fn returns_values<F: FunVM>(reg: Registry<F>) -> bool {
    forall|i: int, p: ProgramRef<'_>, a: Args<'_>, c: Code|
        0 <= i < reg@.len() && #[trigger] call_ensures(reg@[i].fun.fun, (p, a), c) ==> c.is_final()
}

/// Reduction is total: with callables that return final values, code that
/// does not fail is reduced to a final value.
pub proof fn law_reduces_to_a_value<F: FunVM>(
    reg: Registry<F>,
    p: ProgramRef<'_>,
    code: Code,
    reduced: Code,
)
    requires
        returns_values(reg),
        eval_outcome(reg, p, code, Ok(reduced)),
    ensures
        reduced.is_final(),
{
}

/// Reduction is deterministic: with pure callables, reducing the same code
/// against equal program views has one outcome only.
pub proof fn law_deterministic<F: FunVM>(
    reg: Registry<F>,
    p1: ProgramRef<'_>,
    p2: ProgramRef<'_>,
    code: Code,
    o1: Result<Code, ErrorVm>,
    o2: Result<Code, ErrorVm>,
)
    requires
        pure(reg),
        p1@ == p2@,
        eval_outcome(reg, p1, code, o1),
        eval_outcome(reg, p2, code, o2),
    ensures
        o1 == o2,
    decreases code,
{
    match code {
        Code::Value(v) => {},
        Code::Column(i) => {},
        Code::CallFn(id, args) => {
            let v1 = choose|vals: Seq<AlgebraicValue>|
                {
                    &&& #[trigger] values_of_prefix(vals, args@)
                    &&& forall|i: int|
                        0 <= i < vals.len() ==> eval_outcome(
                            reg,
                            p1,
                            #[trigger] args@[i],
                            Ok(Code::Value(vals[i])),
                        )
                    &&& if vals.len() < args@.len() {
                        exists|bad: Result<Code, ErrorVm>|
                            {
                                &&& eval_outcome(reg, p1, args@[vals.len() as int], bad)
                                &&& #[trigger] value_of(bad) matches Err(e)
                                &&& o1 == Err::<Code, ErrorVm>(e)
                            }
                    } else {
                        exists|a: Args<'_>|
                            {
                                &&& a@ == vals
                                &&& a.is_shaped()
                                &&& #[trigger] call_outcome(reg, p1, id, a, o1)
                            }
                    }
                };
            let v2 = choose|vals: Seq<AlgebraicValue>|
                {
                    &&& #[trigger] values_of_prefix(vals, args@)
                    &&& forall|i: int|
                        0 <= i < vals.len() ==> eval_outcome(
                            reg,
                            p2,
                            #[trigger] args@[i],
                            Ok(Code::Value(vals[i])),
                        )
                    &&& if vals.len() < args@.len() {
                        exists|bad: Result<Code, ErrorVm>|
                            {
                                &&& eval_outcome(reg, p2, args@[vals.len() as int], bad)
                                &&& #[trigger] value_of(bad) matches Err(e)
                                &&& o2 == Err::<Code, ErrorVm>(e)
                            }
                    } else {
                        exists|a: Args<'_>|
                            {
                                &&& a@ == vals
                                &&& a.is_shaped()
                                &&& #[trigger] call_outcome(reg, p2, id, a, o2)
                            }
                    }
                };
            let n1 = v1.len() as int;
            let n2 = v2.len() as int;
            if n1 < n2 {
                let bad = choose|bad: Result<Code, ErrorVm>|
                    {
                        &&& eval_outcome(reg, p1, args@[n1], bad)
                        &&& #[trigger] value_of(bad) matches Err(e)
                        &&& o1 == Err::<Code, ErrorVm>(e)
                    };
                law_deterministic(reg, p1, p2, args@[n1], bad, Ok(Code::Value(v2[n1])));
                assert(false);
            }
            if n2 < n1 {
                let bad = choose|bad: Result<Code, ErrorVm>|
                    {
                        &&& eval_outcome(reg, p2, args@[n2], bad)
                        &&& #[trigger] value_of(bad) matches Err(e)
                        &&& o2 == Err::<Code, ErrorVm>(e)
                    };
                law_deterministic(reg, p1, p2, args@[n2], Ok(Code::Value(v1[n2])), bad);
                assert(false);
            }
            assert forall|i: int| 0 <= i < n1 implies v1[i] == v2[i] by {
                law_deterministic(
                    reg,
                    p1,
                    p2,
                    args@[i],
                    Ok(Code::Value(v1[i])),
                    Ok(Code::Value(v2[i])),
                );
            }
            assert(v1 =~= v2);
            if n1 < args@.len() {
                let bad1 = choose|bad: Result<Code, ErrorVm>|
                    {
                        &&& eval_outcome(reg, p1, args@[n1], bad)
                        &&& #[trigger] value_of(bad) matches Err(e)
                        &&& o1 == Err::<Code, ErrorVm>(e)
                    };
                let bad2 = choose|bad: Result<Code, ErrorVm>|
                    {
                        &&& eval_outcome(reg, p2, args@[n1], bad)
                        &&& #[trigger] value_of(bad) matches Err(e)
                        &&& o2 == Err::<Code, ErrorVm>(e)
                    };
                law_deterministic(reg, p1, p2, args@[n1], bad1, bad2);
            } else {
                let a1 = choose|a: Args<'_>|
                    a@ == v1 && a.is_shaped() && #[trigger] call_outcome(reg, p1, id, a, o1);
                let a2 = choose|a: Args<'_>|
                    a@ == v2 && a.is_shaped() && #[trigger] call_outcome(reg, p2, id, a, o2);
                assert(a1@ == a2@);
            }
        },
        Code::And(l, r) => {
            let lo1 = choose|lo: Result<Code, ErrorVm>|
                {
                    &&& eval_outcome(reg, p1, *l, lo)
                    &&& match #[trigger] truth_of(lo) {
                        Err(e) => o1 == Err::<Code, ErrorVm>(e),
                        Ok(false) => o1 == Ok::<Code, ErrorVm>(Code::truth(false)),
                        Ok(true) => exists|ro: Result<Code, ErrorVm>|
                            eval_outcome(reg, p1, *r, ro) && o1 == of_truth(#[trigger] truth_of(ro)),
                    }
                };
            let lo2 = choose|lo: Result<Code, ErrorVm>|
                {
                    &&& eval_outcome(reg, p2, *l, lo)
                    &&& match #[trigger] truth_of(lo) {
                        Err(e) => o2 == Err::<Code, ErrorVm>(e),
                        Ok(false) => o2 == Ok::<Code, ErrorVm>(Code::truth(false)),
                        Ok(true) => exists|ro: Result<Code, ErrorVm>|
                            eval_outcome(reg, p2, *r, ro) && o2 == of_truth(#[trigger] truth_of(ro)),
                    }
                };
            law_deterministic(reg, p1, p2, *l, lo1, lo2);
            if truth_of(lo1) == Ok::<bool, ErrorVm>(true) {
                let ro1 = choose|ro: Result<Code, ErrorVm>|
                    eval_outcome(reg, p1, *r, ro) && o1 == of_truth(#[trigger] truth_of(ro));
                let ro2 = choose|ro: Result<Code, ErrorVm>|
                    eval_outcome(reg, p2, *r, ro) && o2 == of_truth(#[trigger] truth_of(ro));
                law_deterministic(reg, p1, p2, *r, ro1, ro2);
            }
        },
        Code::Or(l, r) => {
            let lo1 = choose|lo: Result<Code, ErrorVm>|
                {
                    &&& eval_outcome(reg, p1, *l, lo)
                    &&& match #[trigger] truth_of(lo) {
                        Err(e) => o1 == Err::<Code, ErrorVm>(e),
                        Ok(true) => o1 == Ok::<Code, ErrorVm>(Code::truth(true)),
                        Ok(false) => exists|ro: Result<Code, ErrorVm>|
                            eval_outcome(reg, p1, *r, ro) && o1 == of_truth(#[trigger] truth_of(ro)),
                    }
                };
            let lo2 = choose|lo: Result<Code, ErrorVm>|
                {
                    &&& eval_outcome(reg, p2, *l, lo)
                    &&& match #[trigger] truth_of(lo) {
                        Err(e) => o2 == Err::<Code, ErrorVm>(e),
                        Ok(true) => o2 == Ok::<Code, ErrorVm>(Code::truth(true)),
                        Ok(false) => exists|ro: Result<Code, ErrorVm>|
                            eval_outcome(reg, p2, *r, ro) && o2 == of_truth(#[trigger] truth_of(ro)),
                    }
                };
            law_deterministic(reg, p1, p2, *l, lo1, lo2);
            if truth_of(lo1) == Ok::<bool, ErrorVm>(false) {
                let ro1 = choose|ro: Result<Code, ErrorVm>|
                    eval_outcome(reg, p1, *r, ro) && o1 == of_truth(#[trigger] truth_of(ro));
                let ro2 = choose|ro: Result<Code, ErrorVm>|
                    eval_outcome(reg, p2, *r, ro) && o2 == of_truth(#[trigger] truth_of(ro));
                law_deterministic(reg, p1, p2, *r, ro1, ro2);
            }
        },
    }
}

} // verus!
