//! How types and errors read to the user: the text of each, with the types
//! and counts that it is about.

use vstd::prelude::*;
use vstd::string::*;
use crate::errors::{Construct, RangeBound, TypeError};
use crate::types::{ArraySize, Signedness, Type};

verus! {

/// The text of a single decimal digit.
pub open spec fn digit_text(digit: nat) -> Seq<char> {
    if digit == 0 {
        "0"@
    } else if digit == 1 {
        "1"@
    } else if digit == 2 {
        "2"@
    } else if digit == 3 {
        "3"@
    } else if digit == 4 {
        "4"@
    } else if digit == 5 {
        "5"@
    } else if digit == 6 {
        "6"@
    } else if digit == 7 {
        "7"@
    } else if digit == 8 {
        "8"@
    } else {
        "9"@
    }
}

/// The text of a number in decimal, without leading zeros.
pub open spec fn decimal_text(number: nat) -> Seq<char>
    decreases number,
{
    if number < 10 {
        digit_text(number)
    } else {
        decimal_text(number / 10) + digit_text(number % 10)
    }
}

fn digit_str(digit: u128) -> (text: &'static str)
    requires
        digit < 10,
    ensures
        text@ == digit_text(digit as nat),
{
    if digit == 0 {
        "0"
    } else if digit == 1 {
        "1"
    } else if digit == 2 {
        "2"
    } else if digit == 3 {
        "3"
    } else if digit == 4 {
        "4"
    } else if digit == 5 {
        "5"
    } else if digit == 6 {
        "6"
    } else if digit == 7 {
        "7"
    } else if digit == 8 {
        "8"
    } else {
        "9"
    }
}

/// Writes a number in decimal.
pub fn decimal(number: u128) -> (text: String)
    ensures
        text@ == decimal_text(number as nat),
    decreases number,
{
    if number < 10 {
        String::from_str(digit_str(number))
    } else {
        let mut text = decimal(number / 10);
        text.append(digit_str(number % 10));
        text
    }
}

impl Signedness {
    /// How a signedness reads.
    pub open spec fn text(self) -> Seq<char> {
        match self {
            Signedness::Unsigned => "unsigned"@,
            Signedness::Signed => "signed"@,
        }
    }

    /// How a signedness reads.
    pub fn describe(&self) -> (text: &'static str)
        ensures
            text@ == self.text(),
    {
        match self {
            Signedness::Unsigned => "unsigned",
            Signedness::Signed => "signed",
        }
    }
}

impl Type {
    /// How a type reads: an integer as `u` or `i` and its bit width, an
    /// array as its element type in brackets, followed by its length where
    /// that is known.
    pub open spec fn text(self) -> Seq<char>
        decreases self,
    {
        match self {
            Type::FieldElement => "Field"@,
            Type::Constant => "Constant"@,
            Type::Public => "Public"@,
            Type::Witness => "Witness"@,
            Type::Integer(Signedness::Unsigned, width) => "u"@ + decimal_text(width as nat),
            Type::Integer(Signedness::Signed, width) => "i"@ + decimal_text(width as nat),
            Type::Bool => "bool"@,
            Type::Error => "error"@,
            Type::Unspecified => "unspecified"@,
            Type::Unknown => "unknown"@,
            Type::Unit => "()"@,
            Type::Array(ArraySize::Variable, element) => "["@ + element.text() + "]"@,
            Type::Array(ArraySize::Fixed(length), element) => "["@ + element.text() + "; "@
                + decimal_text(length as nat) + "]"@,
        }
    }

    /// Writes the type as the user reads it.
    pub fn describe(&self) -> (text: String)
        ensures
            text@ == self.text(),
        decreases *self,
    {
        match self {
            Type::FieldElement => String::from_str("Field"),
            Type::Constant => String::from_str("Constant"),
            Type::Public => String::from_str("Public"),
            Type::Witness => String::from_str("Witness"),
            Type::Integer(sign, width) => {
                let mut text = match sign {
                    Signedness::Unsigned => String::from_str("u"),
                    Signedness::Signed => String::from_str("i"),
                };
                let digits = decimal(*width as u128);
                text.append(digits.as_str());
                text
            },
            Type::Bool => String::from_str("bool"),
            Type::Error => String::from_str("error"),
            Type::Unspecified => String::from_str("unspecified"),
            Type::Unknown => String::from_str("unknown"),
            Type::Unit => String::from_str("()"),
            Type::Array(size, element) => {
                let mut text = String::from_str("[");
                let inner = element.describe();
                text.append(inner.as_str());
                match size {
                    ArraySize::Variable => {},
                    ArraySize::Fixed(length) => {
                        text.append("; ");
                        let digits = decimal(*length);
                        text.append(digits.as_str());
                    },
                }
                text.append("]");
                text
            },
        }
    }
}

impl Construct {
    /// How a form of the language is named in a message.
    pub open spec fn text(self) -> Seq<char> {
        match self {
            Construct::BoolLiteral => "boolean literals"@,
            Construct::StrLiteral => "string literals"@,
            Construct::Prefix => "prefix expressions"@,
            Construct::Predicate => "predicate expressions"@,
            Construct::Conditional => "if expressions"@,
            Construct::TrailingBlock => "blocks as the last statement of a loop body"@,
        }
    }

    /// How a form of the language is named in a message.
    pub fn describe(&self) -> (text: &'static str)
        ensures
            text@ == self.text(),
    {
        match self {
            Construct::BoolLiteral => "boolean literals",
            Construct::StrLiteral => "string literals",
            Construct::Prefix => "prefix expressions",
            Construct::Predicate => "predicate expressions",
            Construct::Conditional => "if expressions",
            Construct::TrailingBlock => "blocks as the last statement of a loop body",
        }
    }
}

impl RangeBound {
    /// How a bound of a range is named in a message.
    pub open spec fn text(self) -> Seq<char> {
        match self {
            RangeBound::Start => "start"@,
            RangeBound::End => "end"@,
        }
    }

    /// How a bound of a range is named in a message.
    pub fn describe(&self) -> (text: &'static str)
        ensures
            text@ == self.text(),
    {
        match self {
            RangeBound::Start => "start",
            RangeBound::End => "end",
        }
    }
}

/// One of the operands is an integer and the other a witness.
pub open spec fn integer_meets_witness(lhs: Type, rhs: Type) -> bool {
    (lhs is Integer && rhs is Witness) || (lhs is Witness && rhs is Integer)
}

/// What is said of two operand types that do not compose: an integer next
/// to a witness calls for a conversion; an integer composes with integers
/// and constants only, and the message names the other type; arrays are no
/// operands at all.
pub open spec fn incompatible_text(lhs: Type, rhs: Type) -> Seq<char> {
    if integer_meets_witness(lhs, rhs) {
        "cannot use an integer and a witness in a binary operation, try converting the witness into an integer"@
    } else if lhs is Integer {
        "integer cannot be used with type "@ + rhs.text()
    } else if rhs is Integer {
        "integer cannot be used with type "@ + lhs.text()
    } else if lhs is Array || rhs is Array {
        "arrays cannot be used in an infix operation"@
    } else {
        "type "@ + lhs.text() + " cannot be used with type "@ + rhs.text()
    }
}

fn incompatible_message(lhs: &Type, rhs: &Type) -> (text: String)
    ensures
        text@ == incompatible_text(*lhs, *rhs),
{
    let lhs_integer = match lhs {
        Type::Integer(_, _) => true,
        _ => false,
    };
    let rhs_integer = match rhs {
        Type::Integer(_, _) => true,
        _ => false,
    };
    let lhs_witness = match lhs {
        Type::Witness => true,
        _ => false,
    };
    let rhs_witness = match rhs {
        Type::Witness => true,
        _ => false,
    };
    let lhs_array = match lhs {
        Type::Array(_, _) => true,
        _ => false,
    };
    let rhs_array = match rhs {
        Type::Array(_, _) => true,
        _ => false,
    };
    if (lhs_integer && rhs_witness) || (lhs_witness && rhs_integer) {
        String::from_str(
            "cannot use an integer and a witness in a binary operation, try converting the witness into an integer",
        )
    } else if lhs_integer {
        let mut text = String::from_str("integer cannot be used with type ");
        let other = rhs.describe();
        text.append(other.as_str());
        text
    } else if rhs_integer {
        let mut text = String::from_str("integer cannot be used with type ");
        let other = lhs.describe();
        text.append(other.as_str());
        text
    } else if lhs_array || rhs_array {
        String::from_str("arrays cannot be used in an infix operation")
    } else {
        let mut text = String::from_str("type ");
        let left = lhs.describe();
        text.append(left.as_str());
        text.append(" cannot be used with type ");
        let right = rhs.describe();
        text.append(right.as_str());
        text
    }
}

impl TypeError {
    /// How the error reads to the user. Each message names the types, the
    /// counts or the identifier that the error is about.
    pub open spec fn text(self) -> Seq<char> {
        match self {
            TypeError::UnresolvedIdentifier { identifier } => "identifier #"@ + decimal_text(
                identifier.0 as nat,
            ) + " has no definition with a type"@,
            TypeError::SignednessMismatch { lhs, rhs } => {
                "integers must have the same signedness, lhs is "@ + lhs.text() + ", rhs is "@
                    + rhs.text()
            },
            TypeError::BitWidthMismatch { lhs, rhs } => {
                "integers must have the same bit width, lhs is "@ + decimal_text(lhs as nat)
                    + ", rhs is "@ + decimal_text(rhs as nat)
            },
            TypeError::IncompatibleOperandTypes { lhs, rhs } => incompatible_text(lhs, rhs),
            TypeError::IndexOnNonArray { found } => "cannot index into type "@ + found.text()
                + ", which is not an array"@,
            TypeError::ArityMismatch { expected, found } => "expected "@ + decimal_text(
                expected as nat,
            ) + " arguments, got "@ + decimal_text(found as nat),
            TypeError::ArgumentTypeMismatch { parameter, expected, found } => "expected "@
                + expected.text() + " for parameter #"@ + decimal_text(parameter.0 as nat)
                + " but got "@ + found.text(),
            TypeError::VariableSizedArgument { parameter, found } => "argument for parameter #"@
                + decimal_text(parameter.0 as nat) + " has type "@ + found.text()
                + ", an array of variable size cannot be passed as an argument"@,
            TypeError::NonConstantRangeBound { bound, found } => "the "@ + bound.text()
                + " of the range has type "@ + found.text() + ", it must be a constant"@,
            TypeError::RangeBoundTypeMismatch { start, end } => {
                "the start of the range has type "@ + start.text() + " but the end has type "@
                    + end.text()
            },
            TypeError::HeterogeneousArray { left, right } => "type "@ + left.text()
                + " does not equal type "@ + right.text() + " in the array"@,
            TypeError::UnsupportedConstruct { construct } => construct.text()
                + " are not supported yet"@,
        }
    }

    /// Writes the error as the user reads it.
    pub fn message(&self) -> (text: String)
        ensures
            text@ == self.text(),
    {
        match self {
            TypeError::UnresolvedIdentifier { identifier } => {
                let mut text = String::from_str("identifier #");
                let number = decimal(identifier.0 as u128);
                text.append(number.as_str());
                text.append(" has no definition with a type");
                text
            },
            TypeError::SignednessMismatch { lhs, rhs } => {
                let mut text = String::from_str("integers must have the same signedness, lhs is ");
                text.append(lhs.describe());
                text.append(", rhs is ");
                text.append(rhs.describe());
                text
            },
            TypeError::BitWidthMismatch { lhs, rhs } => {
                let mut text = String::from_str("integers must have the same bit width, lhs is ");
                let left = decimal(*lhs as u128);
                text.append(left.as_str());
                text.append(", rhs is ");
                let right = decimal(*rhs as u128);
                text.append(right.as_str());
                text
            },
            TypeError::IncompatibleOperandTypes { lhs, rhs } => incompatible_message(lhs, rhs),
            TypeError::IndexOnNonArray { found } => {
                let mut text = String::from_str("cannot index into type ");
                let typ = found.describe();
                text.append(typ.as_str());
                text.append(", which is not an array");
                text
            },
            TypeError::ArityMismatch { expected, found } => {
                let mut text = String::from_str("expected ");
                let wanted = decimal(*expected as u128);
                text.append(wanted.as_str());
                text.append(" arguments, got ");
                let given = decimal(*found as u128);
                text.append(given.as_str());
                text
            },
            TypeError::ArgumentTypeMismatch { parameter, expected, found } => {
                let mut text = String::from_str("expected ");
                let wanted = expected.describe();
                text.append(wanted.as_str());
                text.append(" for parameter #");
                let number = decimal(parameter.0 as u128);
                text.append(number.as_str());
                text.append(" but got ");
                let given = found.describe();
                text.append(given.as_str());
                text
            },
            TypeError::VariableSizedArgument { parameter, found } => {
                let mut text = String::from_str("argument for parameter #");
                let number = decimal(parameter.0 as u128);
                text.append(number.as_str());
                text.append(" has type ");
                let given = found.describe();
                text.append(given.as_str());
                text.append(", an array of variable size cannot be passed as an argument");
                text
            },
            TypeError::NonConstantRangeBound { bound, found } => {
                let mut text = String::from_str("the ");
                text.append(bound.describe());
                text.append(" of the range has type ");
                let given = found.describe();
                text.append(given.as_str());
                text.append(", it must be a constant");
                text
            },
            TypeError::RangeBoundTypeMismatch { start, end } => {
                let mut text = String::from_str("the start of the range has type ");
                let first = start.describe();
                text.append(first.as_str());
                text.append(" but the end has type ");
                let second = end.describe();
                text.append(second.as_str());
                text
            },
            TypeError::HeterogeneousArray { left, right } => {
                let mut text = String::from_str("type ");
                let first = left.describe();
                text.append(first.as_str());
                text.append(" does not equal type ");
                let second = right.describe();
                text.append(second.as_str());
                text.append(" in the array");
                text
            },
            TypeError::UnsupportedConstruct { construct } => {
                let mut text = String::from_str(construct.describe());
                text.append(" are not supported yet");
                text
            },
        }
    }
}

} // verus!
