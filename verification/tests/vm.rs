use std::cell::Cell;
use std::rc::Rc;

use spacetimedb_vm::error::ErrorVm;
use spacetimedb_vm::expr::{Code, FunctionId};
use spacetimedb_vm::functions::{Args, FunDef, FunVm, Lambda, Param};
use spacetimedb_vm::program::{ProgramRef, ProgramVm};
use spacetimedb_vm::registry::Registry;
use spacetimedb_vm::value::{AlgebraicType, AlgebraicValue};

type Fun = for<'a> fn(ProgramRef<'a>, Args<'a>) -> Code;

struct Row(Vec<AlgebraicValue>);

impl ProgramVm for Row {
    fn as_program_ref(&self) -> ProgramRef<'_> {
        ProgramRef { row: &self.0 }
    }
}

fn num(i: i64) -> Code {
    Code::Value(AlgebraicValue::Int(i))
}

fn truth(b: bool) -> Code {
    Code::Value(AlgebraicValue::Bool(b))
}

fn text(s: &str) -> AlgebraicValue {
    AlgebraicValue::String(s.to_string())
}

fn add(_p: ProgramRef<'_>, args: Args<'_>) -> Code {
    match args {
        Args::Binary(AlgebraicValue::Int(x), AlgebraicValue::Int(y)) => num(x + y),
        _ => unreachable!(),
    }
}

fn concat(_p: ProgramRef<'_>, args: Args<'_>) -> Code {
    let mut out = String::new();
    let n = args.arity();
    for i in 0..n {
        match args.get(i) {
            AlgebraicValue::String(s) => out.push_str(s),
            _ => unreachable!(),
        }
    }
    Code::Value(AlgebraicValue::String(out))
}

fn is_even(_p: ProgramRef<'_>, args: Args<'_>) -> Code {
    match args {
        Args::Unary(AlgebraicValue::Int(x)) => truth(x % 2 == 0),
        _ => unreachable!(),
    }
}

fn column0(p: ProgramRef<'_>, _args: Args<'_>) -> Code {
    Code::Value(p.row[0].clone())
}

fn unreduced(_p: ProgramRef<'_>, _args: Args<'_>) -> Code {
    Code::CallFn(FunctionId(0), vec![num(1), num(2)])
}

fn num_params() -> Vec<Param> {
    vec![
        Param::new("x", AlgebraicType::Int),
        Param::new("y", AlgebraicType::Int),
    ]
}

fn library() -> (Registry<Fun>, FunctionId, FunctionId, FunctionId) {
    let mut reg: Registry<Fun> = Registry::new();
    let add_id = reg
        .register("add", &num_params(), AlgebraicType::Int, add)
        .unwrap();
    let concat_id = reg
        .register(
            "concat",
            &[Param::splat("args", AlgebraicType::String)],
            AlgebraicType::String,
            concat,
        )
        .unwrap();
    let even_id = reg
        .register(
            "is_even",
            &[Param::new("x", AlgebraicType::Int)],
            AlgebraicType::Bool,
            is_even,
        )
        .unwrap();
    (reg, add_id, concat_id, even_id)
}

#[test]
fn ids_are_dense_and_in_order() {
    let (reg, add_id, concat_id, even_id) = library();
    assert_eq!(add_id, FunctionId(0));
    assert_eq!(concat_id, FunctionId(1));
    assert_eq!(even_id, FunctionId(2));
    assert_eq!(reg.len(), 3);
}

#[test]
fn lookups_by_name_and_by_id_agree() {
    let (reg, _, concat_id, _) = library();
    let id = reg.resolve_by_name("concat").unwrap();
    assert_eq!(id, concat_id);
    let fun = reg.resolve_by_id(id).unwrap();
    assert_eq!(fun.name, "concat");
    assert_eq!(fun.idx, id);
    let def = reg.signature(id).unwrap();
    assert_eq!(
        *def,
        FunDef::new(
            "concat",
            &[Param::splat("args", AlgebraicType::String)],
            AlgebraicType::String
        )
    );
    assert_eq!(reg.resolve_by_name("missing"), None);
    assert!(reg.resolve_by_id(FunctionId(3)).is_none());
    assert!(reg.signature(FunctionId(3)).is_none());
}

#[test]
fn duplicate_name_is_refused_and_changes_nothing() {
    let (mut reg, add_id, _, _) = library();
    let out = reg.register(
        "add",
        &[Param::new("only", AlgebraicType::Bool)],
        AlgebraicType::Bool,
        is_even,
    );
    assert_eq!(out, Err(ErrorVm::DuplicateName));
    assert_eq!(reg.len(), 3);
    assert_eq!(reg.resolve_by_name("add"), Some(add_id));
    assert_eq!(reg.signature(add_id).unwrap().params, num_params());
    let next = reg
        .register("fresh", &[], AlgebraicType::Int, column0)
        .unwrap();
    assert_eq!(next, FunctionId(3));
}

#[test]
fn scenario_add_two_and_three() {
    let (reg, add_id, _, _) = library();
    let code = Code::CallFn(add_id, vec![num(2), num(3)]);
    assert_eq!(reg.eval(&Row(vec![]), &code), Ok(num(5)));
}

#[test]
fn scenario_concat_of_a_splat() {
    let (reg, _, concat_id, _) = library();
    let vals = [text("a"), text("b"), text("c")];
    let out = reg.call(&Row(vec![]), concat_id, Args::Splat(&vals));
    assert_eq!(out, Ok(Code::Value(text("abc"))));
    let none: [AlgebraicValue; 0] = [];
    assert_eq!(
        reg.call(&Row(vec![]), concat_id, Args::Splat(&none)),
        Ok(Code::Value(text("")))
    );
}

#[test]
fn scenario_unknown_function() {
    let (reg, _, _, _) = library();
    let code = Code::CallFn(FunctionId(17), vec![num(1)]);
    assert_eq!(
        reg.eval(&Row(vec![]), &code),
        Err(ErrorVm::UnknownFunction(FunctionId(17)))
    );
}

#[test]
fn scenario_wrong_arity_called_directly() {
    let (reg, _, _, even_id) = library();
    let two = AlgebraicValue::Int(2);
    let out = reg.call(&Row(vec![]), even_id, Args::Binary(&two, &two));
    assert_eq!(out, Err(ErrorVm::ArityMismatch));
    assert_eq!(
        reg.call(&Row(vec![]), even_id, Args::Unary(&two)),
        Ok(truth(true))
    );
}

#[test]
fn arity_is_counted_whatever_the_variant() {
    let (reg, add_id, _, even_id) = library();
    let row = Row(vec![]);
    let vals = [AlgebraicValue::Int(4), AlgebraicValue::Int(5)];
    assert_eq!(reg.call(&row, add_id, Args::Unary(&vals[0])), Err(ErrorVm::ArityMismatch));
    assert_eq!(reg.call(&row, add_id, Args::Splat(&vals[..0])), Err(ErrorVm::ArityMismatch));
    assert_eq!(reg.call(&row, even_id, Args::Splat(&vals)), Err(ErrorVm::ArityMismatch));
    let three = [
        AlgebraicValue::Int(1),
        AlgebraicValue::Int(2),
        AlgebraicValue::Int(3),
    ];
    assert_eq!(reg.call(&row, add_id, Args::Splat(&three)), Err(ErrorVm::ArityMismatch));
}

#[test]
fn argument_types_are_checked_after_the_arity() {
    let (reg, add_id, concat_id, even_id) = library();
    let row = Row(vec![]);
    let one = AlgebraicValue::Int(1);
    let yes = AlgebraicValue::Bool(true);
    assert_eq!(reg.call(&row, add_id, Args::Binary(&one, &yes)), Err(ErrorVm::TypeMismatch));
    assert_eq!(reg.call(&row, even_id, Args::Unary(&yes)), Err(ErrorVm::TypeMismatch));
    let mixed = [text("a"), AlgebraicValue::Int(1)];
    assert_eq!(reg.call(&row, concat_id, Args::Splat(&mixed)), Err(ErrorVm::TypeMismatch));
    // The arity comes first: three arguments of the wrong type are too many.
    let wrong = [text("a"), text("b"), text("c")];
    assert_eq!(reg.call(&row, add_id, Args::Splat(&wrong)), Err(ErrorVm::ArityMismatch));
}

#[test]
fn variadic_parameter_follows_the_fixed_ones() {
    let mut reg: Registry<Fun> = Registry::new();
    let id = reg
        .register(
            "tagged",
            &[
                Param::new("tag", AlgebraicType::Int),
                Param::splat("rest", AlgebraicType::String),
            ],
            AlgebraicType::Int,
            column0,
        )
        .unwrap();
    let row = Row(vec![AlgebraicValue::Int(9)]);
    let none: [AlgebraicValue; 0] = [];
    assert_eq!(reg.call(&row, id, Args::Splat(&none)), Err(ErrorVm::ArityMismatch));
    let tag = AlgebraicValue::Int(1);
    assert_eq!(reg.call(&row, id, Args::Unary(&tag)), Ok(num(9)));
    let more = [AlgebraicValue::Int(1), text("a"), text("b")];
    assert_eq!(reg.call(&row, id, Args::Splat(&more)), Ok(num(9)));
    let bad = [AlgebraicValue::Int(1), text("a"), AlgebraicValue::Int(2)];
    assert_eq!(reg.call(&row, id, Args::Splat(&bad)), Err(ErrorVm::TypeMismatch));
}

#[test]
fn arguments_are_reduced_before_the_call() {
    let (reg, add_id, _, even_id) = library();
    let sum = Code::CallFn(
        add_id,
        vec![Code::CallFn(add_id, vec![num(1), num(2)]), num(3)],
    );
    let code = Code::CallFn(even_id, vec![sum]);
    assert_eq!(reg.eval(&Row(vec![]), &code), Ok(truth(true)));
}

#[test]
fn first_failing_argument_decides() {
    let (reg, add_id, _, even_id) = library();
    let row = Row(vec![]);
    let unknown = Code::CallFn(FunctionId(40), vec![]);
    let ill_typed = Code::CallFn(even_id, vec![truth(true)]);
    let code = Code::CallFn(add_id, vec![ill_typed, unknown]);
    assert_eq!(reg.eval(&row, &code), Err(ErrorVm::TypeMismatch));
    let unknown = Code::CallFn(FunctionId(40), vec![]);
    let ill_typed = Code::CallFn(even_id, vec![truth(true)]);
    let code = Code::CallFn(add_id, vec![unknown, ill_typed]);
    assert_eq!(
        reg.eval(&row, &code),
        Err(ErrorVm::UnknownFunction(FunctionId(40)))
    );
    // Arguments come before the function itself is looked up.
    let code = Code::CallFn(FunctionId(41), vec![Code::CallFn(FunctionId(40), vec![])]);
    assert_eq!(
        reg.eval(&row, &code),
        Err(ErrorVm::UnknownFunction(FunctionId(40)))
    );
}

#[test]
fn a_value_reduces_to_itself() {
    let (reg, _, _, _) = library();
    assert_eq!(reg.eval(&Row(vec![]), &num(7)), Ok(num(7)));
    assert_eq!(
        reg.eval(&Row(vec![]), &Code::Value(text("x"))),
        Ok(Code::Value(text("x")))
    );
}

#[test]
fn nullary_call_takes_an_empty_splat() {
    let mut reg: Registry<Fun> = Registry::new();
    let id = reg
        .register("first_column", &[], AlgebraicType::Int, column0)
        .unwrap();
    let row = Row(vec![AlgebraicValue::Int(12)]);
    assert_eq!(reg.eval(&row, &Code::CallFn(id, vec![])), Ok(num(12)));
    assert_eq!(
        reg.eval(&row, &Code::CallFn(id, vec![num(1)])),
        Err(ErrorVm::ArityMismatch)
    );
}

#[test]
fn evaluation_is_deterministic() {
    let (reg, add_id, _, even_id) = library();
    let row = Row(vec![]);
    let code = Code::CallFn(
        even_id,
        vec![Code::CallFn(add_id, vec![num(20), num(21)])],
    );
    let first = reg.eval(&row, &code);
    let second = reg.eval(&row, &code);
    assert_eq!(first, Ok(truth(false)));
    assert_eq!(first, second);
}

#[test]
fn unreduced_result_is_passed_on_at_the_top() {
    let mut reg: Registry<Fun> = Registry::new();
    let add_id = reg
        .register("add", &num_params(), AlgebraicType::Int, add)
        .unwrap();
    let lazy = reg
        .register("lazy", &[], AlgebraicType::Int, unreduced)
        .unwrap();
    let row = Row(vec![]);
    let once = reg.eval(&row, &Code::CallFn(lazy, vec![])).unwrap();
    assert_eq!(once, Code::CallFn(add_id, vec![num(1), num(2)]));
    assert!(!once.is_value());
    assert_eq!(reg.eval(&row, &once), Ok(num(3)));
    // As an argument it is no value of the declared type.
    let code = Code::CallFn(add_id, vec![Code::CallFn(lazy, vec![]), num(1)]);
    assert_eq!(reg.eval(&row, &code), Err(ErrorVm::TypeMismatch));
}

#[test]
fn conjunction_skips_its_right_operand() {
    let calls = Rc::new(Cell::new(0u32));
    let seen = calls.clone();
    let tick = move |_p: ProgramRef<'_>, _a: Args<'_>| -> Code {
        seen.set(seen.get() + 1);
        Code::Value(AlgebraicValue::Bool(true))
    };
    let mut reg = Registry::new();
    let id = reg.register("tick", &[], AlgebraicType::Bool, tick).unwrap();
    let row = Row(vec![]);

    let code = Code::And(Box::new(truth(false)), Box::new(Code::CallFn(id, vec![])));
    assert_eq!(reg.eval(&row, &code), Ok(truth(false)));
    assert_eq!(calls.get(), 0);

    let code = Code::And(Box::new(truth(true)), Box::new(Code::CallFn(id, vec![])));
    assert_eq!(reg.eval(&row, &code), Ok(truth(true)));
    assert_eq!(calls.get(), 1);

    // A right operand that would fail is not reduced either.
    let code = Code::And(
        Box::new(truth(false)),
        Box::new(Code::CallFn(FunctionId(99), vec![])),
    );
    assert_eq!(reg.eval(&row, &code), Ok(truth(false)));
    let code = Code::And(
        Box::new(truth(true)),
        Box::new(Code::CallFn(FunctionId(99), vec![])),
    );
    assert_eq!(
        reg.eval(&row, &code),
        Err(ErrorVm::UnknownFunction(FunctionId(99)))
    );
}

#[test]
fn disjunction_skips_its_right_operand() {
    let calls = Rc::new(Cell::new(0u32));
    let seen = calls.clone();
    let tick = move |_p: ProgramRef<'_>, _a: Args<'_>| -> Code {
        seen.set(seen.get() + 1);
        Code::Value(AlgebraicValue::Bool(false))
    };
    let mut reg = Registry::new();
    let id = reg.register("tick", &[], AlgebraicType::Bool, tick).unwrap();
    let row = Row(vec![]);

    let code = Code::Or(Box::new(truth(true)), Box::new(Code::CallFn(id, vec![])));
    assert_eq!(reg.eval(&row, &code), Ok(truth(true)));
    assert_eq!(calls.get(), 0);

    let code = Code::Or(Box::new(truth(false)), Box::new(Code::CallFn(id, vec![])));
    assert_eq!(reg.eval(&row, &code), Ok(truth(false)));
    assert_eq!(calls.get(), 1);
}

#[test]
fn connectives_want_truth_values() {
    let (reg, _, _, _) = library();
    let row = Row(vec![]);
    let code = Code::And(Box::new(num(1)), Box::new(truth(true)));
    assert_eq!(reg.eval(&row, &code), Err(ErrorVm::TypeMismatch));
    let code = Code::And(Box::new(truth(true)), Box::new(num(1)));
    assert_eq!(reg.eval(&row, &code), Err(ErrorVm::TypeMismatch));
    let code = Code::Or(Box::new(truth(false)), Box::new(Code::Value(text("x"))));
    assert_eq!(reg.eval(&row, &code), Err(ErrorVm::TypeMismatch));
    let code = Code::Or(Box::new(num(0)), Box::new(truth(true)));
    assert_eq!(reg.eval(&row, &code), Err(ErrorVm::TypeMismatch));
}

#[test]
fn arguments_take_the_cheapest_shape() {
    let vals = [
        AlgebraicValue::Int(1),
        AlgebraicValue::Int(2),
        AlgebraicValue::Int(3),
    ];
    assert_eq!(Args::shaped(&vals[..0]), Args::Splat(&vals[..0]));
    assert_eq!(Args::shaped(&vals[..1]), Args::Unary(&vals[0]));
    assert_eq!(Args::shaped(&vals[..2]), Args::Binary(&vals[0], &vals[1]));
    assert_eq!(Args::shaped(&vals), Args::Splat(&vals));
    assert_eq!(Args::shaped(&vals[..2]).arity(), 2);
    assert_eq!(Args::shaped(&vals).get(2), &vals[2]);
    assert!(Args::Unary(&vals[0]) < Args::Unary(&vals[1]));
}

#[test]
fn function_value_runs_against_the_program_view() {
    let f: FunVm<Fun> = FunVm::new("first_column", FunctionId(4), column0);
    assert_eq!(f.name, "first_column");
    assert_eq!(f.idx, FunctionId(4));
    let row = Row(vec![text("here")]);
    let none: [AlgebraicValue; 0] = [];
    assert_eq!(f.call(&row, Args::Splat(&none)), Code::Value(text("here")));
    let copy = f.clone();
    assert_eq!(copy.call(&row, Args::Splat(&none)), Code::Value(text("here")));
}

#[test]
fn values_know_their_type() {
    assert_eq!(AlgebraicValue::Bool(true).type_of(), AlgebraicType::Bool);
    assert_eq!(AlgebraicValue::Int(-3).type_of(), AlgebraicType::Int);
    assert_eq!(text("x").type_of(), AlgebraicType::String);
}

#[test]
fn signature_checks_calls() {
    let def = FunDef::new("add", &num_params(), AlgebraicType::Int);
    assert_eq!(def.name, "add");
    assert_eq!(def.result, AlgebraicType::Int);
    let one = AlgebraicValue::Int(1);
    let yes = AlgebraicValue::Bool(true);
    assert_eq!(def.check_args(&Args::Binary(&one, &one)), None);
    assert_eq!(def.check_args(&Args::Unary(&one)), Some(ErrorVm::ArityMismatch));
    assert_eq!(def.check_args(&Args::Binary(&yes, &one)), Some(ErrorVm::TypeMismatch));
}

#[test]
fn copy_of_a_tree_is_the_same_tree() {
    let (reg, add_id, _, even_id) = library();
    let code = Code::And(
        Box::new(Code::CallFn(even_id, vec![Code::CallFn(add_id, vec![num(1), num(1)])])),
        Box::new(Code::Or(Box::new(truth(false)), Box::new(truth(true)))),
    );
    let copy = code.clone();
    assert_eq!(copy, code);
    assert_eq!(reg.eval(&Row(vec![]), &copy), Ok(truth(true)));
}

#[test]
fn registering_keeps_what_was_registered() {
    let (mut reg, add_id, concat_id, even_id) = library();
    let extra = reg
        .register("extra", &[], AlgebraicType::Int, column0)
        .unwrap();
    assert_eq!(extra, FunctionId(3));
    assert_eq!(reg.resolve_by_name("add"), Some(add_id));
    assert_eq!(reg.resolve_by_name("concat"), Some(concat_id));
    assert_eq!(reg.resolve_by_name("is_even"), Some(even_id));
    assert_eq!(reg.resolve_by_name("extra"), Some(extra));
    assert_eq!(reg.signature(even_id).unwrap().name, "is_even");
    assert_eq!(reg.resolve_by_id(add_id).unwrap().idx, add_id);
}

#[test]
fn column_reads_the_row() {
    let (reg, add_id, _, _) = library();
    let row = Row(vec![AlgebraicValue::Int(40), text("x"), AlgebraicValue::Int(2)]);
    assert_eq!(reg.eval(&row, &Code::Column(1)), Ok(Code::Value(text("x"))));
    let code = Code::CallFn(add_id, vec![Code::Column(0), Code::Column(2)]);
    assert_eq!(reg.eval(&row, &code), Ok(num(42)));
    assert_eq!(reg.eval(&row, &Code::Column(3)), Err(ErrorVm::TypeMismatch));
    let code = Code::CallFn(add_id, vec![Code::Column(0), Code::Column(1)]);
    assert_eq!(reg.eval(&row, &code), Err(ErrorVm::TypeMismatch));
}

#[test]
fn lambda_binds_its_parameters_to_columns() {
    let (reg, add_id, _, even_id) = library();
    let head = FunDef::new("sum_is_even", &num_params(), AlgebraicType::Bool);
    let body = Code::CallFn(
        even_id,
        vec![Code::CallFn(add_id, vec![Code::Column(0), Code::Column(1)])],
    );
    let lambda = Lambda::new(head, body).unwrap();
    let three = AlgebraicValue::Int(3);
    let five = AlgebraicValue::Int(5);
    assert_eq!(lambda.apply(&reg, Args::Binary(&three, &five)), Ok(truth(true)));
    assert_eq!(lambda.apply(&reg, Args::Unary(&three)), Err(ErrorVm::ArityMismatch));
    let yes = AlgebraicValue::Bool(true);
    assert_eq!(lambda.apply(&reg, Args::Binary(&three, &yes)), Err(ErrorVm::TypeMismatch));
}

#[test]
fn lambda_body_may_name_parameters_only() {
    let head = FunDef::new("f", &num_params(), AlgebraicType::Int);
    assert!(Lambda::new(head.clone(), Code::Column(1)).is_some());
    assert!(Lambda::new(head.clone(), Code::Column(2)).is_none());
    let nested = Code::And(
        Box::new(truth(true)),
        Box::new(Code::CallFn(FunctionId(0), vec![num(1), Code::Column(5)])),
    );
    assert!(Lambda::new(head, nested).is_none());
    // A variadic parameter stands for no single column.
    let head = FunDef::new(
        "g",
        &[
            Param::new("tag", AlgebraicType::Int),
            Param::splat("rest", AlgebraicType::Int),
        ],
        AlgebraicType::Int,
    );
    assert!(Lambda::new(head.clone(), Code::Column(0)).is_some());
    assert!(Lambda::new(head, Code::Column(1)).is_none());
    assert!(Code::Column(0).has_columns_below(1));
    assert!(!Code::Column(0).has_columns_below(0));
}
