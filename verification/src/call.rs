//! Whether the arguments of a call fit the parameters of the function.

use vstd::prelude::*;
use crate::errors::TypeError;
use crate::ir::Param;
use crate::types::{ArraySize, Type};

verus! {

/// Whether a call with `arguments` arguments fits a function with
/// `parameters` parameters: the two counts must be equal.
pub open spec fn arity_fits(parameters: nat, arguments: nat) -> Result<(), TypeError> {
    if parameters == arguments {
        Ok(())
    } else {
        Err(
            TypeError::ArityMismatch {
                expected: parameters as usize,
                found: arguments as usize,
            },
        )
    }
}

/// Whether an argument of type `argument` may be passed for `param`.
///
/// An argument whose length is not known is never accepted. A parameter
/// whose length is not known takes any array of known length, whatever its
/// elements are. In every other case the two types must be equal.
pub open spec fn argument_fits(param: Param, argument: Type) -> Result<(), TypeError> {
    if argument.is_variable_array() {
        Err(TypeError::VariableSizedArgument { parameter: param.0, found: argument })
    } else if param.1.is_variable_array() && argument.is_fixed_array() {
        Ok(())
    } else if param.1 != argument {
        Err(
            TypeError::ArgumentTypeMismatch {
                parameter: param.0,
                expected: param.1,
                found: argument,
            },
        )
    } else {
        Ok(())
    }
}

/// `at` is the first position whose argument does not fit its parameter.
pub open spec fn is_first_misfit(params: Seq<Param>, arguments: Seq<Type>, at: int) -> bool {
    &&& 0 <= at < params.len()
    &&& at < arguments.len()
    &&& argument_fits(params[at], arguments[at]) is Err
    &&& forall|i: int| 0 <= i < at ==> (#[trigger] argument_fits(params[i], arguments[i])) is Ok
}

/// Every argument fits the parameter at its position.
pub open spec fn all_arguments_fit(params: Seq<Param>, arguments: Seq<Type>) -> bool {
    forall|i: int|
        0 <= i < params.len() && i < arguments.len() ==> (#[trigger] argument_fits(
            params[i],
            arguments[i],
        )) is Ok
}

/// The first position whose argument does not fit its parameter, where there
/// is one.
pub open spec fn first_misfit(params: Seq<Param>, arguments: Seq<Type>) -> int {
    choose|at: int| is_first_misfit(params, arguments, at)
}

/// Whether a call with arguments of these types fits these parameters: the
/// counts are compared first, then the pairs in order, and the first pair
/// that does not fit gives the error.
pub open spec fn arguments_fit(params: Seq<Param>, arguments: Seq<Type>) -> Result<(), TypeError> {
    if params.len() != arguments.len() {
        arity_fits(params.len(), arguments.len())
    } else if all_arguments_fit(params, arguments) {
        Ok(())
    } else {
        argument_fits(
            params[first_misfit(params, arguments)],
            arguments[first_misfit(params, arguments)],
        )
    }
}

/// There is at most one first misfit.
pub proof fn lemma_first_misfit_unique(params: Seq<Param>, arguments: Seq<Type>, a: int, b: int)
    requires
        is_first_misfit(params, arguments, a),
        is_first_misfit(params, arguments, b),
    ensures
        a == b,
{
    if a < b {
        assert(argument_fits(params[a], arguments[a]) is Ok);
    } else if b < a {
        assert(argument_fits(params[b], arguments[b]) is Ok);
    }
}

/// Checks that a call passes as many arguments as the function declares
/// parameters.
pub fn check_arity(parameters: usize, arguments: usize) -> (result: Result<(), TypeError>)
    ensures
        result == arity_fits(parameters as nat, arguments as nat),
{
    if parameters != arguments {
        return Err(TypeError::ArityMismatch { expected: parameters, found: arguments });
    }
    Ok(())
}

/// Checks one argument against the parameter that it is passed for.
pub fn check_param_argument(param: &Param, arg_type: &Type) -> (result: Result<(), TypeError>)
    ensures
        result == argument_fits(*param, *arg_type),
{
    let param_type = &param.1;
    let param_id = param.0;

    if arg_type.is_variable_sized_array() {
        return Err(
            TypeError::VariableSizedArgument { parameter: param_id, found: arg_type.clone() },
        );
    }
    // An array of known length may be passed where the parameter leaves the
    // length open.

    if param_type.is_variable_sized_array() && arg_type.is_fixed_sized_array() {
        return Ok(());
    }
    if !param_type.same_as(arg_type) {
        return Err(
            TypeError::ArgumentTypeMismatch {
                parameter: param_id,
                expected: param_type.clone(),
                found: arg_type.clone(),
            },
        );
    }
    Ok(())
}

/// Checks the arguments of a call against the parameters of the function:
/// first their number, then each argument against its parameter, in order.
pub fn check_call_arguments(params: &Vec<Param>, arg_types: &Vec<Type>) -> (result: Result<
    (),
    TypeError,
>)
    ensures
        result == arguments_fit(params@, arg_types@),
{
    let arity = check_arity(params.len(), arg_types.len());
    if arity.is_err() {
        return arity;
    }
    let count: usize = params.len();
    let mut at: usize = 0;
    while at < count
        invariant
            count == params.len(),
            count == arg_types.len(),
            at <= count,
            forall|i: int|
                0 <= i < at ==> (#[trigger] argument_fits(params@[i], arg_types@[i])) is Ok,
        decreases count - at,
    {
        let fits = check_param_argument(&params[at], &arg_types[at]);
        if fits.is_err() {
            proof {
                assert(is_first_misfit(params@, arg_types@, at as int));
                assert(!all_arguments_fit(params@, arg_types@));
                lemma_first_misfit_unique(
                    params@,
                    arg_types@,
                    at as int,
                    first_misfit(params@, arg_types@),
                );
            }
            return fits;
        }
        at = at + 1;
    }
    assert(all_arguments_fit(params@, arg_types@));
    Ok(())
}

/// A parameter that is an array of unknown length takes an array of any
/// known length, and the element types need not agree.
pub proof fn lemma_fixed_array_fits_variable(
    parameter: crate::ir::IdentId,
    declared: Type,
    length: u128,
    element: Type,
)
    ensures
        argument_fits(
            Param(parameter, Type::Array(ArraySize::Variable, Box::new(declared))),
            Type::Array(ArraySize::Fixed(length), Box::new(element)),
        ) is Ok,
{
}

/// An argument that is an array of unknown length is rejected by every
/// parameter.
pub proof fn lemma_variable_argument_rejected(param: Param, element: Type)
    ensures
        argument_fits(param, Type::Array(ArraySize::Variable, Box::new(element)))
            == Err::<(), TypeError>(
            TypeError::VariableSizedArgument {
                parameter: param.0,
                found: Type::Array(ArraySize::Variable, Box::new(element)),
            },
        ),
{
}

/// Apart from arrays of unknown length on either side, an argument fits
/// exactly when its type is the parameter's.
pub proof fn lemma_plain_argument_fits(param: Param, argument: Type)
    requires
        !argument.is_variable_array(),
        !param.1.is_variable_array(),
    ensures
        argument_fits(param, argument) is Ok <==> param.1 == argument,
{
}

} // verus!
