//! The value layer: the shapes a value can have, and the values themselves.

use vstd::prelude::*;

verus! {

/// The schema of a value: which shape a runtime value has.
#[derive(Debug, Clone, Copy, PartialEq, Eq, Structural, PartialOrd, Ord, Hash)]
pub enum AlgebraicType {
    Bool,
    Int,
    String,
}

/// A tagged runtime value.
#[derive(Debug, PartialEq, Eq, PartialOrd, Ord, Hash)]
pub enum AlgebraicValue {
    Bool(bool),
    Int(i64),
    String(String),
}

impl AlgebraicValue {
    /// The type that this value inhabits.
    pub open spec fn kind(&self) -> AlgebraicType {
        match *self {
            AlgebraicValue::Bool(_) => AlgebraicType::Bool,
            AlgebraicValue::Int(_) => AlgebraicType::Int,
            AlgebraicValue::String(_) => AlgebraicType::String,
        }
    }

    /// The type that this value inhabits.
    pub fn type_of(&self) -> (t: AlgebraicType)
        ensures
            t == self.kind(),
    {
        match self {
            AlgebraicValue::Bool(_) => AlgebraicType::Bool,
            AlgebraicValue::Int(_) => AlgebraicType::Int,
            AlgebraicValue::String(_) => AlgebraicType::String,
        }
    }
}

impl Clone for AlgebraicValue {
    fn clone(&self) -> (out: Self)
        ensures
            out == *self,
    {
        match self {
            AlgebraicValue::Bool(b) => AlgebraicValue::Bool(*b),
            AlgebraicValue::Int(i) => AlgebraicValue::Int(*i),
            AlgebraicValue::String(s) => AlgebraicValue::String(s.clone()),
        }
    }
}

} // verus!
