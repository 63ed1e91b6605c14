//! The program context: the environment that a function call runs against.

use vstd::prelude::*;
use crate::value::AlgebraicValue;

verus! {

/// A borrowed, read-only view of the environment, handed to a callable for
/// the time of one call: the values of the row under evaluation.
#[derive(Debug, Clone, Copy)]
pub struct ProgramRef<'a> {
    pub row: &'a [AlgebraicValue],
}

impl<'a> View for ProgramRef<'a> {
    type V = Seq<AlgebraicValue>;

    open spec fn view(&self) -> Seq<AlgebraicValue> {
        self.row@
    }
}

/// What an embedding environment implements to run functions against it.
pub trait ProgramVm {
    /// Narrows the environment to the view that one call may read.
    fn as_program_ref(&self) -> ProgramRef<'_>;
}

} // verus!
