use spacetimedb_vm::energy::{
    energy_url, exec_status, exec_subcommand, exec_update_balance, resolve_identity, set_balance,
    EnergyCommand, Method,
};
use spacetimedb_vm::view::{
    view_impl, GenericKind, ViewArgs, ViewError, ViewFn, ViewInput,
};

fn words(list: &[&str]) -> Vec<String> {
    list.iter().map(|w| w.to_string()).collect()
}

fn typed(name: &str) -> ViewInput {
    ViewInput::Typed(Some(name.to_string()))
}

fn view_fn(generics: Vec<GenericKind>, inputs: Vec<ViewInput>, returns: bool) -> ViewFn {
    ViewFn {
        name: "my_view".to_string(),
        generics,
        inputs,
        returns,
    }
}

#[test]
fn subcommands_are_found_by_name() {
    assert_eq!(exec_subcommand("status"), Ok(EnergyCommand::Status));
    assert_eq!(exec_subcommand("set-balance"), Ok(EnergyCommand::SetBalance));
    assert_eq!(
        exec_subcommand("bogus"),
        Err("Invalid subcommand: bogus".to_string())
    );
    assert_eq!(exec_subcommand(""), Err("Invalid subcommand: ".to_string()));
    assert_eq!(
        exec_subcommand("Status"),
        Err("Invalid subcommand: Status".to_string())
    );
}

#[test]
fn endpoint_joins_host_and_identity() {
    assert_eq!(
        energy_url("http://localhost:3000", "c0ffee"),
        "http://localhost:3000/energy/c0ffee"
    );
    assert_eq!(energy_url("", ""), "/energy/");
}

#[test]
fn given_identity_wins_over_the_default() {
    assert_eq!(resolve_identity(Some("a"), Some("b")), Some("a"));
    assert_eq!(resolve_identity(None, Some("b")), Some("b"));
    assert_eq!(resolve_identity(Some("a"), None), Some("a"));
    assert_eq!(resolve_identity(None, None), None);
}

#[test]
fn status_is_a_get_that_is_printed() {
    let action = exec_status("http://h", "id");
    assert_eq!(action.request.method, Method::Get);
    assert_eq!(action.request.url, "http://h/energy/id");
    assert_eq!(action.request.balance, None);
    assert!(action.print_body);
}

#[test]
fn set_balance_is_a_post_with_the_balance() {
    let request = set_balance("http://h", "id", 42);
    assert_eq!(request.method, Method::Post);
    assert_eq!(request.url, "http://h/energy/id");
    assert_eq!(request.balance, Some(42));

    let loud = exec_update_balance("http://h", "id", u64::MAX, false);
    assert_eq!(loud.request, set_balance("http://h", "id", u64::MAX));
    assert!(loud.print_body);

    let quiet = exec_update_balance("http://h", "id", 0, true);
    assert_eq!(quiet.request.method, Method::Post);
    assert_eq!(quiet.request.url, "http://h/energy/id");
    assert_eq!(quiet.request.balance, Some(0));
    assert!(!quiet.print_body);
}

#[test]
fn view_attribute_wants_public_once() {
    assert_eq!(ViewArgs::parse(&words(&["public"])), Ok(ViewArgs));
    assert_eq!(ViewArgs::parse(&words(&[])), Err(ViewError::MissingPublic));
    assert_eq!(
        ViewArgs::parse(&words(&["public", "public"])),
        Err(ViewError::DuplicatePublic(1))
    );
    assert_eq!(
        ViewArgs::parse(&words(&["private"])),
        Err(ViewError::UnknownArgument(0))
    );
    assert_eq!(
        ViewArgs::parse(&words(&["public", "private", "public"])),
        Err(ViewError::UnknownArgument(1))
    );
    assert_eq!(
        ViewArgs::parse(&words(&["private", "public", "public"])),
        Err(ViewError::UnknownArgument(0))
    );
    assert_eq!(
        ViewArgs::parse(&words(&["public", "public", "private"])),
        Err(ViewError::DuplicatePublic(1))
    );
}

#[test]
fn accepted_view_gets_its_plan() {
    let f = view_fn(
        vec![GenericKind::Lifetime],
        vec![typed("ctx"), ViewInput::Typed(None), typed("limit")],
        true,
    );
    let plan = view_impl(ViewArgs, &f).unwrap();
    assert_eq!(plan.view_name, "my_view");
    assert_eq!(plan.describer_symbol, "__preinit__20_register_describer_my_view");
    assert_eq!(
        plan.arg_names,
        vec![Some("ctx".to_string()), None, Some("limit".to_string())]
    );
}

#[test]
fn view_function_is_checked_in_order() {
    let f = view_fn(
        vec![GenericKind::Lifetime, GenericKind::Type, GenericKind::Const],
        vec![ViewInput::Receiver],
        false,
    );
    assert_eq!(view_impl(ViewArgs, &f), Err(ViewError::TypeParameter(1)));

    let f = view_fn(vec![GenericKind::Const, GenericKind::Type], vec![], false);
    assert_eq!(view_impl(ViewArgs, &f), Err(ViewError::ConstParameter(0)));

    let f = view_fn(
        vec![],
        vec![typed("ctx"), ViewInput::Receiver, ViewInput::Receiver],
        false,
    );
    assert_eq!(view_impl(ViewArgs, &f), Err(ViewError::SelfArgument(1)));

    let f = view_fn(vec![], vec![], false);
    assert_eq!(view_impl(ViewArgs, &f), Err(ViewError::MissingContext));

    let f = view_fn(vec![], vec![typed("ctx")], false);
    assert_eq!(view_impl(ViewArgs, &f), Err(ViewError::MissingReturnType));

    let f = view_fn(vec![], vec![typed("ctx")], true);
    assert!(view_impl(ViewArgs, &f).is_ok());
}

#[test]
fn view_errors_have_their_words() {
    assert_eq!(
        ViewError::MissingPublic.message(),
        "views must be declared as #[view(public)]"
    );
    assert_eq!(ViewError::DuplicatePublic(1).message(), "duplicate `public`");
    assert_eq!(
        ViewError::UnknownArgument(0).message(),
        "unknown #[view(...)] argument; expected `public`"
    );
    assert_eq!(
        ViewError::TypeParameter(0).message(),
        "type parameters are not allowed on views"
    );
    assert_eq!(
        ViewError::ConstParameter(0).message(),
        "const parameters are not allowed on views"
    );
    assert_eq!(
        ViewError::SelfArgument(0).message(),
        "`self` arguments not allowed in views"
    );
    assert_eq!(
        ViewError::MissingContext.message(),
        "`&ViewContext` or `&AnonymousViewContext` must always be the first parameter of a view"
    );
    assert_eq!(
        ViewError::MissingReturnType.message(),
        "views must return one of `T`, `Option<T>`, or `Vec<T>` where `T` is a `SpacetimeType`"
    );
}
