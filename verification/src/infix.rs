//! The type of an infix expression, from its operator and operand types.

use vstd::prelude::*;
use crate::errors::TypeError;
use crate::ir::BinaryOp;
use crate::types::Type;

verus! {

/// What an infix expression with operator `op` and operands of types `lhs`
/// and `rhs` is typed as. The cases are tried from the top, and the first
/// that applies decides:
///
/// - a comparison is a `Bool`, whatever it compares;
/// - two integers must agree in signedness, then in bit width, and give
///   their common type;
/// - an integer and a constant give the integer's type; an integer and
///   anything else do not compose;
/// - an array does not compose with anything;
/// - of the remaining types the first of `Error`, `Unspecified`, `Unknown`,
///   `Unit`, `Witness`, `Public`, `Bool`, `FieldElement` that occurs on either
///   side decides, `Public` counting as `Witness`;
/// - two constants give a constant.
pub open spec fn infix_result_type(lhs: Type, op: BinaryOp, rhs: Type) -> Result<Type, TypeError> {
    if op.is_comparison() {
        Ok(Type::Bool)
    } else if lhs is Integer && rhs is Integer {
        if lhs->Integer_0 != rhs->Integer_0 {
            Err(TypeError::SignednessMismatch { lhs: lhs->Integer_0, rhs: rhs->Integer_0 })
        } else if lhs->Integer_1 != rhs->Integer_1 {
            Err(TypeError::BitWidthMismatch { lhs: lhs->Integer_1, rhs: rhs->Integer_1 })
        } else {
            Ok(lhs)
        }
    } else if lhs is Integer {
        if rhs is Constant {
            Ok(lhs)
        } else {
            Err(TypeError::IncompatibleOperandTypes { lhs, rhs })
        }
    } else if rhs is Integer {
        if lhs is Constant {
            Ok(rhs)
        } else {
            Err(TypeError::IncompatibleOperandTypes { lhs, rhs })
        }
    } else if lhs is Array || rhs is Array {
        Err(TypeError::IncompatibleOperandTypes { lhs, rhs })
    } else if lhs is Error || rhs is Error {
        Ok(Type::Error)
    } else if lhs is Unspecified || rhs is Unspecified {
        Ok(Type::Unspecified)
    } else if lhs is Unknown || rhs is Unknown {
        Ok(Type::Unknown)
    } else if lhs is Unit || rhs is Unit {
        Ok(Type::Unit)
    } else if lhs is Witness || rhs is Witness {
        Ok(Type::Witness)
    } else if lhs is Public || rhs is Public {
        Ok(Type::Witness)
    } else if lhs is Bool || rhs is Bool {
        Ok(Type::Bool)
    } else if lhs is FieldElement || rhs is FieldElement {
        Ok(Type::FieldElement)
    } else {
        Ok(Type::Constant)
    }
}

/// The error for two operand types that no rule composes.
fn incompatible(lhs: &Type, rhs: &Type) -> (error: TypeError)
    ensures
        error == (TypeError::IncompatibleOperandTypes { lhs: *lhs, rhs: *rhs }),
{
    TypeError::IncompatibleOperandTypes { lhs: lhs.clone(), rhs: rhs.clone() }
}

/// Given a binary operator and the types of its two operands, produces the
/// type of the result, or the reason why the operands do not compose.
pub fn infix_operand_type_rules(lhs_type: &Type, op: &BinaryOp, other: &Type) -> (result: Result<
    Type,
    TypeError,
>)
    ensures
        result == infix_result_type(*lhs_type, *op, *other),
{
    if op.is_comparator() {
        return Ok(Type::Bool);
    }
    match (lhs_type, other) {
        (Type::Integer(sign_x, bit_width_x), Type::Integer(sign_y, bit_width_y)) => {
            if *sign_x != *sign_y {
                return Err(TypeError::SignednessMismatch { lhs: *sign_x, rhs: *sign_y });
            }
            if *bit_width_x != *bit_width_y {
                return Err(TypeError::BitWidthMismatch { lhs: *bit_width_x, rhs: *bit_width_y });
            }
            Ok(Type::Integer(*sign_x, *bit_width_x))
        },
        (Type::Integer(_, _), Type::Witness) | (Type::Witness, Type::Integer(_, _)) => {
            Err(incompatible(lhs_type, other))
        },
        (Type::Integer(sign_x, bit_width_x), Type::Constant)
        | (Type::Constant, Type::Integer(sign_x, bit_width_x)) => {
            Ok(Type::Integer(*sign_x, *bit_width_x))
        },
        (Type::Integer(_, _), _) | (_, Type::Integer(_, _)) => Err(incompatible(lhs_type, other)),
        // Arrays are not supported in binary operations.
        (Type::Array(_, _), _) | (_, Type::Array(_, _)) => Err(incompatible(lhs_type, other)),
        // A placeholder on either side is passed on, and raises nothing new.
        (Type::Error, _) | (_, Type::Error) => Ok(Type::Error),
        (Type::Unspecified, _) | (_, Type::Unspecified) => Ok(Type::Unspecified),
        (Type::Unknown, _) | (_, Type::Unknown) => Ok(Type::Unknown),
        (Type::Unit, _) | (_, Type::Unit) => Ok(Type::Unit),
        // With no integer on either side, a witness makes the result a witness.
        (Type::Witness, _) | (_, Type::Witness) => Ok(Type::Witness),
        // Public values are witnesses under the hood.
        (Type::Public, _) | (_, Type::Public) => Ok(Type::Witness),
        (Type::Bool, _) | (_, Type::Bool) => Ok(Type::Bool),
        (Type::FieldElement, _) | (_, Type::FieldElement) => Ok(Type::FieldElement),
        (Type::Constant, Type::Constant) => Ok(Type::Constant),
    }
}

/// The outcome for the operands in the other order: a type stays, an error
/// has its two operands change places.
pub open spec fn mirrored_outcome(outcome: Result<Type, TypeError>) -> Result<Type, TypeError> {
    match outcome {
        Ok(typ) => Ok(typ),
        Err(error) => Err(error.mirrored()),
    }
}

/// Two integers of one signedness and one bit width compose to that very
/// integer type, under every operator that is no comparison. If they differ in
/// signedness the outcome is the signedness error, and if they agree in that
/// but differ in bit width it is the bit-width error.
pub proof fn lemma_integer_pairs(
    sign_x: crate::types::Signedness,
    width_x: u32,
    op: BinaryOp,
    sign_y: crate::types::Signedness,
    width_y: u32,
)
    requires
        !op.is_comparison(),
    ensures
        sign_x == sign_y && width_x == width_y ==> infix_result_type(
            Type::Integer(sign_x, width_x),
            op,
            Type::Integer(sign_y, width_y),
        ) == Ok::<Type, TypeError>(Type::Integer(sign_x, width_x)),
        sign_x != sign_y ==> infix_result_type(
            Type::Integer(sign_x, width_x),
            op,
            Type::Integer(sign_y, width_y),
        ) == Err::<Type, TypeError>(TypeError::SignednessMismatch { lhs: sign_x, rhs: sign_y }),
        sign_x == sign_y && width_x != width_y ==> infix_result_type(
            Type::Integer(sign_x, width_x),
            op,
            Type::Integer(sign_y, width_y),
        ) == Err::<Type, TypeError>(TypeError::BitWidthMismatch { lhs: width_x, rhs: width_y }),
{
}

/// Swapping the operands changes nothing but the order in which an error
/// names them: the same pairs compose, and to the same type.
pub proof fn lemma_infix_symmetric(lhs: Type, op: BinaryOp, rhs: Type)
    ensures
        infix_result_type(rhs, op, lhs) == mirrored_outcome(infix_result_type(lhs, op, rhs)),
{
}

/// A comparison is typed `Bool` whatever its operands are.
pub proof fn lemma_comparison_is_bool(lhs: Type, op: BinaryOp, rhs: Type)
    requires
        op.is_comparison(),
    ensures
        infix_result_type(lhs, op, rhs) == Ok::<Type, TypeError>(Type::Bool),
{
}

} // verus!
