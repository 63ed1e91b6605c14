//! View declarations: which of them are accepted, and what is generated
//! for one that is.
//!
//! A declaration is held here as plain data: the arguments of the attribute
//! as words, and of the function what the rules read. Each error names the
//! place it is about, so that a caller can point at it.

use vstd::prelude::*;
use vstd::string::StringExecFns;
use crate::text::str_eq;

verus! {

/// Why a view declaration is refused. The number is the position of the
/// attribute argument, generic parameter or function argument at fault.
#[derive(Debug, Clone, Copy, PartialEq, Eq, Structural)]
pub enum ViewError {
    MissingPublic,
    DuplicatePublic(usize),
    UnknownArgument(usize),
    TypeParameter(usize),
    ConstParameter(usize),
    SelfArgument(usize),
    MissingContext,
    MissingReturnType,
}

impl ViewError {
    /// The words that the user is told.
    pub open spec fn words(&self) -> Seq<char> {
        match *self {
            ViewError::MissingPublic => "views must be declared as #[view(public)]"@,
            ViewError::DuplicatePublic(_) => "duplicate `public`"@,
            ViewError::UnknownArgument(_) => "unknown #[view(...)] argument; expected `public`"@,
            ViewError::TypeParameter(_) => "type parameters are not allowed on views"@,
            ViewError::ConstParameter(_) => "const parameters are not allowed on views"@,
            ViewError::SelfArgument(_) => "`self` arguments not allowed in views"@,
            ViewError::MissingContext => "`&ViewContext` or `&AnonymousViewContext` must always be the first parameter of a view"@,
            ViewError::MissingReturnType => "views must return one of `T`, `Option<T>`, or `Vec<T>` where `T` is a `SpacetimeType`"@,
        }
    }

    /// The words that the user is told.
    pub fn message(&self) -> (out: String)
        ensures
            out@ == self.words(),
    {
        match self {
            ViewError::MissingPublic => "views must be declared as #[view(public)]".to_owned(),
            ViewError::DuplicatePublic(_) => "duplicate `public`".to_owned(),
            ViewError::UnknownArgument(_) => "unknown #[view(...)] argument; expected `public`".to_owned(),
            ViewError::TypeParameter(_) => "type parameters are not allowed on views".to_owned(),
            ViewError::ConstParameter(_) => "const parameters are not allowed on views".to_owned(),
            ViewError::SelfArgument(_) => "`self` arguments not allowed in views".to_owned(),
            ViewError::MissingContext => "`&ViewContext` or `&AnonymousViewContext` must always be the first parameter of a view".to_owned(),
            ViewError::MissingReturnType => "views must return one of `T`, `Option<T>`, or `Vec<T>` where `T` is a `SpacetimeType`".to_owned(),
        }
    }
}

/// What is wrong with the arguments of a view attribute, read from left to
/// right; `None` where they are exactly `public`.
pub open spec fn args_fault(args: Seq<String>) -> Option<ViewError> {
    if args.len() == 0 {
        Some(ViewError::MissingPublic)
    } else if args[0]@ != "public"@ {
        Some(ViewError::UnknownArgument(0))
    } else if args.len() == 1 {
        None
    } else if args[1]@ == "public"@ {
        Some(ViewError::DuplicatePublic(1))
    } else {
        Some(ViewError::UnknownArgument(1))
    }
}

/// The arguments of a view attribute that was accepted.
#[derive(Debug, Clone, Copy, PartialEq, Eq, Structural)]
pub struct ViewArgs;

impl ViewArgs {
    /// Accepts `#[view(public)]`, where `public` is required: `args` holds
    /// the arguments of the attribute in order.
    pub fn parse(args: &[String]) -> (out: Result<Self, ViewError>)
        ensures
            match args_fault(args@) {
                None => out == Ok::<Self, ViewError>(ViewArgs),
                Some(e) => out == Err::<Self, ViewError>(e),
            },
    {
        if args.len() == 0 {
            return Err(ViewError::MissingPublic);
        }
        let mut public = false;
        let mut i: usize = 0;
        while i < args.len()
            invariant
                i <= args@.len(),
                args@.len() > 0,
                i <= 1,
                public == (i == 1),
                i == 1 ==> args@[0]@ == "public"@,
            decreases args@.len() - i,
        {
            if str_eq(args[i].as_str(), "public") {
                if public {
                    return Err(ViewError::DuplicatePublic(i));
                }
                public = true;
            } else {
                return Err(ViewError::UnknownArgument(i));
            }
            i += 1;
        }
        if !public {
            return Err(ViewError::MissingPublic);
        }
        Ok(ViewArgs)
    }
}

/// What a generic parameter of a function is.
#[derive(Debug, Clone, Copy, PartialEq, Eq, Structural)]
pub enum GenericKind {
    Lifetime,
    Type,
    Const,
}

/// One argument of a function: `self` in some form, or a pattern with a
/// type, whose name is known where the pattern is a plain identifier.
#[derive(Debug, Clone, PartialEq, Eq)]
pub enum ViewInput {
    Receiver,
    Typed(Option<String>),
}

/// Of a function that is declared a view, what the rules read.
#[derive(Debug, Clone, PartialEq, Eq)]
pub struct ViewFn {
    pub name: String,
    pub generics: Vec<GenericKind>,
    pub inputs: Vec<ViewInput>,
    /// Whether a return type is written.
    pub returns: bool,
}

/// What is generated for a view: its name, the symbol under which it is
/// registered before the module starts, and the names of its arguments,
/// the context first.
#[derive(Debug, Clone, PartialEq, Eq)]
pub struct ViewPlan {
    pub view_name: String,
    pub describer_symbol: String,
    pub arg_names: Vec<Option<String>>,
}

/// Where a generic parameter other than a lifetime first stands; the
/// length where there is none.
pub open spec fn first_generic_fault(generics: Seq<GenericKind>) -> int
    decreases generics.len(),
{
    if generics.len() == 0 || generics[0] != GenericKind::Lifetime {
        0
    } else {
        1 + first_generic_fault(generics.drop_first())
    }
}

/// Where `self` first stands among the arguments; the length where it
/// does not occur.
pub open spec fn first_receiver(inputs: Seq<ViewInput>) -> int
    decreases inputs.len(),
{
    if inputs.len() == 0 || inputs[0] is Receiver {
        0
    } else {
        1 + first_receiver(inputs.drop_first())
    }
}

/// What is wrong with the function of a view: the generic parameters are
/// read first, then the arguments, then the context is looked for, then
/// the return type. `None` where the function is accepted.
pub open spec fn fn_fault(f: ViewFn) -> Option<ViewError> {
    let g = first_generic_fault(f.generics@);
    let r = first_receiver(f.inputs@);
    if g < f.generics@.len() {
        if f.generics@[g] == GenericKind::Type {
            Some(ViewError::TypeParameter(g as usize))
        } else {
            Some(ViewError::ConstParameter(g as usize))
        }
    } else if r < f.inputs@.len() {
        Some(ViewError::SelfArgument(r as usize))
    } else if f.inputs@.len() == 0 {
        Some(ViewError::MissingContext)
    } else if !f.returns {
        Some(ViewError::MissingReturnType)
    } else {
        None
    }
}

/// The name of an argument; none for `self`.
pub open spec fn name_of(input: ViewInput) -> Option<String> {
    match input {
        ViewInput::Receiver => None,
        ViewInput::Typed(name) => name,
    }
}

/// The symbol under which the view `name` is registered.
pub open spec fn describer_symbol(name: Seq<char>) -> Seq<char> {
    "__preinit__20_register_describer_"@ + name
}

/// Where the first fault among the generic parameters is known to stand at
/// `k` (or to be missing, with `k` the length).
proof fn lemma_first_generic_fault(generics: Seq<GenericKind>, k: int)
    requires
        0 <= k <= generics.len(),
        forall|j: int| 0 <= j < k ==> generics[j] == GenericKind::Lifetime,
        k < generics.len() ==> generics[k] != GenericKind::Lifetime,
    ensures
        first_generic_fault(generics) == k,
    decreases k,
{
    if k > 0 {
        let rest = generics.drop_first();
        assert forall|j: int| 0 <= j < k - 1 implies rest[j] == GenericKind::Lifetime by {
            assert(rest[j] == generics[j + 1]);
        }
        lemma_first_generic_fault(rest, k - 1);
    }
}

/// Where the first `self` among the arguments is known to stand at `k` (or
/// to be missing, with `k` the length).
proof fn lemma_first_receiver(inputs: Seq<ViewInput>, k: int)
    requires
        0 <= k <= inputs.len(),
        forall|j: int| 0 <= j < k ==> !(inputs[j] is Receiver),
        k < inputs.len() ==> inputs[k] is Receiver,
    ensures
        first_receiver(inputs) == k,
    decreases k,
{
    if k > 0 {
        let rest = inputs.drop_first();
        assert forall|j: int| 0 <= j < k - 1 implies !(rest[j] is Receiver) by {
            assert(rest[j] == inputs[j + 1]);
        }
        lemma_first_receiver(rest, k - 1);
    }
}

/// Checks the function of a view and says what is generated for it.
///
/// Generic parameters other than lifetimes are refused, and so is `self`;
/// the first argument is the context and must be there; a return type must
/// be written. For an accepted function the plan holds its name, the
/// symbol of its describer, and the name of every argument in order.
pub fn view_impl(_args: ViewArgs, function: &ViewFn) -> (out: Result<ViewPlan, ViewError>)
    ensures
        match fn_fault(*function) {
            Some(e) => out == Err::<ViewPlan, ViewError>(e),
            None => {
                &&& out matches Ok(plan)
                &&& plan.view_name@ == function.name@
                &&& plan.describer_symbol@ == describer_symbol(function.name@)
                &&& plan.arg_names@.len() == function.inputs@.len()
                &&& forall|i: int|
                    0 <= i < plan.arg_names@.len() ==> #[trigger] plan.arg_names@[i] == name_of(
                        function.inputs@[i],
                    )
            },
        },
{
    let mut g: usize = 0;
    while g < function.generics.len()
        invariant
            g <= function.generics@.len(),
            forall|j: int| 0 <= j < g ==> function.generics@[j] == GenericKind::Lifetime,
        decreases function.generics@.len() - g,
    {
        match function.generics[g] {
            GenericKind::Lifetime => {},
            GenericKind::Type => {
                proof {
                    lemma_first_generic_fault(function.generics@, g as int);
                }
                return Err(ViewError::TypeParameter(g));
            },
            GenericKind::Const => {
                proof {
                    lemma_first_generic_fault(function.generics@, g as int);
                }
                return Err(ViewError::ConstParameter(g));
            },
        }
        g += 1;
    }
    proof {
        lemma_first_generic_fault(function.generics@, g as int);
    }
    let mut arg_names: Vec<Option<String>> = Vec::new();
    let mut i: usize = 0;
    while i < function.inputs.len()
        invariant
            first_generic_fault(function.generics@) == function.generics@.len(),
            i <= function.inputs@.len(),
            arg_names@.len() == i,
            forall|j: int| 0 <= j < i ==> !(function.inputs@[j] is Receiver),
            forall|j: int| 0 <= j < i ==> #[trigger] arg_names@[j] == name_of(function.inputs@[j]),
        decreases function.inputs@.len() - i,
    {
        match &function.inputs[i] {
            ViewInput::Typed(Some(name)) => {
                arg_names.push(Some(name.clone()));
            },
            ViewInput::Typed(None) => {
                arg_names.push(None);
            },
            ViewInput::Receiver => {
                proof {
                    lemma_first_receiver(function.inputs@, i as int);
                }
                return Err(ViewError::SelfArgument(i));
            },
        }
        i += 1;
    }
    proof {
        lemma_first_receiver(function.inputs@, i as int);
    }
    if function.inputs.len() == 0 {
        return Err(ViewError::MissingContext);
    }
    if !function.returns {
        return Err(ViewError::MissingReturnType);
    }
    let mut describer_symbol = "__preinit__20_register_describer_".to_owned();
    describer_symbol.append(function.name.as_str());
    Ok(ViewPlan { view_name: function.name.clone(), describer_symbol, arg_names })
}

} // verus!
