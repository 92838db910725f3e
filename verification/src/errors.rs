//! What the type check reports when a program is rejected.

use vstd::prelude::*;
use crate::ir::IdentId;
use crate::types::{Signedness, Type};

verus! {

/// One of the two bounds of a loop's range.
#[derive(Clone, Copy, Debug, PartialEq, Eq, Structural)]
pub enum RangeBound {
    Start,
    End,
}

/// A form of the language that the type check does not handle yet.
#[derive(Clone, Copy, Debug, PartialEq, Eq, Structural)]
pub enum Construct {
    BoolLiteral,
    StrLiteral,
    Prefix,
    Predicate,
    Conditional,
    /// A block as the last statement of a loop's body.
    TrailingBlock,
}

/// Why an expression or a statement was rejected.
#[allow(inconsistent_fields)]
#[derive(Debug)]
pub enum TypeError {
    /// The identifier has no definition, or its definition has no type yet.
    UnresolvedIdentifier { identifier: IdentId },
    /// Two integer operands differ in signedness.
    SignednessMismatch { lhs: Signedness, rhs: Signedness },
    /// Two integer operands of one signedness differ in bit width.
    BitWidthMismatch { lhs: u32, rhs: u32 },
    /// No rule composes the two operand types.
    IncompatibleOperandTypes { lhs: Type, rhs: Type },
    /// The collection of an index expression is no array.
    IndexOnNonArray { found: Type },
    /// A call passes another number of arguments than the function declares.
    ArityMismatch { expected: usize, found: usize },
    /// An argument's type does not fit the parameter's.
    ArgumentTypeMismatch { parameter: IdentId, expected: Type, found: Type },
    /// An argument is an array whose length is not known.
    VariableSizedArgument { parameter: IdentId, found: Type },
    /// A bound of a loop's range is no compile-time constant.
    NonConstantRangeBound { bound: RangeBound, found: Type },
    /// The two bounds of a loop's range differ in type.
    RangeBoundTypeMismatch { start: Type, end: Type },
    /// Two neighbouring elements of an array literal differ in type.
    HeterogeneousArray { left: Type, right: Type },
    /// The program uses a form that is not supported yet.
    UnsupportedConstruct { construct: Construct },
}

impl TypeError {
    /// The error that the same operands give in the other order: left and
    /// right operand change places. Errors that name no operands stay.
    pub open spec fn mirrored(self) -> TypeError {
        match self {
            TypeError::SignednessMismatch { lhs, rhs } => TypeError::SignednessMismatch {
                lhs: rhs,
                rhs: lhs,
            },
            TypeError::BitWidthMismatch { lhs, rhs } => TypeError::BitWidthMismatch {
                lhs: rhs,
                rhs: lhs,
            },
            TypeError::IncompatibleOperandTypes { lhs, rhs } => {
                TypeError::IncompatibleOperandTypes { lhs: rhs, rhs: lhs }
            },
            other => other,
        }
    }

    /// Structural equality of two errors.
    pub fn same_as(&self, other: &TypeError) -> (same: bool)
        ensures
            same == (*self == *other),
    {
        match (self, other) {
            (
                TypeError::UnresolvedIdentifier { identifier: a },
                TypeError::UnresolvedIdentifier { identifier: b },
            ) => *a == *b,
            (
                TypeError::SignednessMismatch { lhs: a, rhs: b },
                TypeError::SignednessMismatch { lhs: c, rhs: d },
            ) => *a == *c && *b == *d,
            (
                TypeError::BitWidthMismatch { lhs: a, rhs: b },
                TypeError::BitWidthMismatch { lhs: c, rhs: d },
            ) => *a == *c && *b == *d,
            (
                TypeError::IncompatibleOperandTypes { lhs: a, rhs: b },
                TypeError::IncompatibleOperandTypes { lhs: c, rhs: d },
            ) => a.same_as(c) && b.same_as(d),
            (TypeError::IndexOnNonArray { found: a }, TypeError::IndexOnNonArray { found: b }) => {
                a.same_as(b)
            },
            (
                TypeError::ArityMismatch { expected: a, found: b },
                TypeError::ArityMismatch { expected: c, found: d },
            ) => *a == *c && *b == *d,
            (
                TypeError::ArgumentTypeMismatch { parameter: p, expected: a, found: b },
                TypeError::ArgumentTypeMismatch { parameter: q, expected: c, found: d },
            ) => *p == *q && a.same_as(c) && b.same_as(d),
            (
                TypeError::VariableSizedArgument { parameter: p, found: a },
                TypeError::VariableSizedArgument { parameter: q, found: b },
            ) => *p == *q && a.same_as(b),
            (
                TypeError::NonConstantRangeBound { bound: p, found: a },
                TypeError::NonConstantRangeBound { bound: q, found: b },
            ) => *p == *q && a.same_as(b),
            (
                TypeError::RangeBoundTypeMismatch { start: a, end: b },
                TypeError::RangeBoundTypeMismatch { start: c, end: d },
            ) => a.same_as(c) && b.same_as(d),
            (
                TypeError::HeterogeneousArray { left: a, right: b },
                TypeError::HeterogeneousArray { left: c, right: d },
            ) => a.same_as(c) && b.same_as(d),
            (
                TypeError::UnsupportedConstruct { construct: a },
                TypeError::UnsupportedConstruct { construct: b },
            ) => *a == *b,
            _ => false,
        }
    }
}

impl PartialEq for TypeError {
    fn eq(&self, other: &TypeError) -> (same: bool) {
        self.same_as(other)
    }
}

impl Eq for TypeError {

}

impl vstd::std_specs::cmp::PartialEqSpecImpl for TypeError {
    open spec fn obeys_eq_spec() -> bool {
        true
    }

    open spec fn eq_spec(&self, other: &TypeError) -> bool {
        *self == *other
    }
}

} // verus!
