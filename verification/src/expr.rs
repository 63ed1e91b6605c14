//! Compiled expressions: what the evaluator reduces.

use vstd::prelude::*;
use crate::value::AlgebraicValue;

verus! {

/// The dense handle of a registered function: its position in the registry.
#[derive(Debug, Clone, Copy, PartialEq, Eq, Structural, PartialOrd, Ord, Hash)]
pub struct FunctionId(pub usize);

/// An expression, or what is left of one: either a final value or a node
/// that can still be reduced.
#[derive(Debug, PartialEq, Eq)]
pub enum Code {
    /// A final value.
    Value(AlgebraicValue),
    /// The value of a column of the row under evaluation, by position.
    Column(usize),
    /// A call of a registered function on the values of the argument
    /// expressions.
    CallFn(FunctionId, Vec<Code>),
    /// Conjunction; the right operand is reduced only if the left one is true.
    And(Box<Code>, Box<Code>),
    /// Disjunction; the right operand is reduced only if the left one is false.
    Or(Box<Code>, Box<Code>),
}

impl Code {
    /// Whether this is a final value.
    pub open spec fn is_final(&self) -> bool {
        *self is Value
    }

    /// The final code that carries the truth value `b`.
    pub open spec fn truth(b: bool) -> Code {
        Code::Value(AlgebraicValue::Bool(b))
    }

    /// Whether `other` is the same tree: the same values and function ids
    /// at the same places.
    pub open spec fn alike(&self, other: Code) -> bool
        decreases *self,
    {
        match *self {
            Code::Value(v) => other == Code::Value(v),
            Code::Column(i) => other == Code::Column(i),
            Code::CallFn(id, args) => {
                &&& other matches Code::CallFn(id2, args2)
                &&& id2 == id
                &&& args2@.len() == args@.len()
                &&& forall|i: int| 0 <= i < args@.len() ==> (#[trigger] args@[i]).alike(args2@[i])
            },
            Code::And(l, r) => other matches Code::And(l2, r2) && l.alike(*l2) && r.alike(*r2),
            Code::Or(l, r) => other matches Code::Or(l2, r2) && l.alike(*l2) && r.alike(*r2),
        }
    }

    /// Whether every column that the tree refers to is among the first `n`.
    pub open spec fn columns_below(&self, n: nat) -> bool
        decreases *self,
    {
        match *self {
            Code::Value(_) => true,
            Code::Column(i) => i < n,
            Code::CallFn(_, args) => forall|i: int|
                0 <= i < args@.len() ==> (#[trigger] args@[i]).columns_below(n),
            Code::And(l, r) => l.columns_below(n) && r.columns_below(n),
            Code::Or(l, r) => l.columns_below(n) && r.columns_below(n),
        }
    }

    /// Tells whether every column that the tree refers to is among the
    /// first `n`.
    pub fn has_columns_below(&self, n: usize) -> (yes: bool)
        ensures
            yes == self.columns_below(n as nat),
        decreases *self,
    {
        match self {
            Code::Value(_) => true,
            Code::Column(i) => *i < n,
            Code::CallFn(_, args) => {
                let mut i: usize = 0;
                while i < args.len()
                    invariant
                        *self is CallFn,
                        self->CallFn_1 == *args,
                        decreases_to!(*self => *args),
                        i <= args@.len(),
                        forall|j: int| 0 <= j < i ==> (#[trigger] args@[j]).columns_below(n as nat),
                    decreases args@.len() - i,
                {
                    proof {
                        assert(decreases_to!(*args => args[i as int]));
                    }
                    if !args[i].has_columns_below(n) {
                        assert(!args@[i as int].columns_below(n as nat));
                        return false;
                    }
                    i += 1;
                }
                true
            },
            Code::And(l, r) => l.has_columns_below(n) && r.has_columns_below(n),
            Code::Or(l, r) => l.has_columns_below(n) && r.has_columns_below(n),
        }
    }

    /// Whether this is a final value.
    pub fn is_value(&self) -> (b: bool)
        ensures
            b == self.is_final(),
    {
        match self {
            Code::Value(_) => true,
            _ => false,
        }
    }
}

impl Clone for Code {
    /// A copy of the whole tree.
    fn clone(&self) -> (out: Self)
        ensures
            self.alike(out),
        decreases *self,
    {
        match self {
            Code::Value(v) => Code::Value(v.clone()),
            Code::Column(i) => Code::Column(*i),
            Code::CallFn(id, args) => {
                let mut copies: Vec<Code> = Vec::new();
                let mut i: usize = 0;
                while i < args.len()
                    invariant
                        decreases_to!(*self => *args),
                        i <= args@.len(),
                        copies@.len() == i,
                        forall|j: int| 0 <= j < i ==> (#[trigger] args@[j]).alike(copies@[j]),
                    decreases args@.len() - i,
                {
                    proof {
                        assert(decreases_to!(*args => args[i as int]));
                    }
                    copies.push(args[i].clone());
                    i += 1;
                }
                let out = Code::CallFn(*id, copies);
                proof {
                    assert(out->CallFn_0 == *id);
                    assert(out->CallFn_1 == copies);
                }
                out
            },
            Code::And(l, r) => Code::And(Box::new((**l).clone()), Box::new((**r).clone())),
            Code::Or(l, r) => Code::Or(Box::new((**l).clone()), Box::new((**r).clone())),
        }
    }
}

} // verus!
