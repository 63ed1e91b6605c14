//! How a registration or an evaluation can fail.

use vstd::prelude::*;
use crate::expr::FunctionId;

verus! {

/// A failure of one registration or one evaluation. None is retried here.
#[derive(Debug, Clone, Copy, PartialEq, Eq, Structural)]
pub enum ErrorVm {
    /// The name is already taken in this registry.
    DuplicateName,
    /// No function with this id is in the registry.
    UnknownFunction(FunctionId),
    /// The number of arguments is not the number the function declares.
    ArityMismatch,
    /// A value does not have the type declared for its place.
    TypeMismatch,
}

} // verus!
