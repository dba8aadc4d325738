//! The rules of a call of a user-defined function or procedure: as many arguments as
//! parameters, a `BYREF` parameter only for an argument that names a place, each argument of
//! its parameter's type, `RETURN` only in a function, and a function that does return.
use crate::ast::{Node, NodeV};
use crate::types::VariableType;
use crate::executor::run_builtins::types_equal;
use vstd::prelude::*;

verus! {

/// Why a call was refused.
#[derive(Clone, Copy, Debug, PartialEq, Eq, Structural)]
pub enum CallError {
    /// The number of arguments is not the number of parameters.
    ArgumentCount,
    /// A `BYREF` parameter was given a value that names no place.
    NotAPlace,
    /// An argument is not of its parameter's type.
    ArgumentType,
    /// A procedure executed `RETURN`.
    ReturnInProcedure,
    /// A function ended without executing `RETURN`.
    MissingReturn,
}

/// A call takes as many arguments as the callee has parameters.
pub fn check_arity(n_params: usize, n_args: usize) -> (r: Result<(), CallError>)
    ensures
        r is Ok <==> n_params == n_args,
        r is Err ==> r == Err::<(), CallError>(CallError::ArgumentCount),
{
    if n_params == n_args {
        Ok(())
    } else {
        Err(CallError::ArgumentCount)
    }
}

/// Whether an expression names a place that a reference can be taken to: a variable, an
/// array element, a field of a record or object, or a dereferenced pointer.
pub open spec fn names_place(n: NodeV) -> bool {
    n is Var || n is ArrayVar || n is Composite || n is Dereference
}

/// Whether an expression names a place (see `names_place`).
pub fn is_place(n: &Node) -> (b: bool)
    ensures
        b == names_place(n@),
{
    match n {
        Node::Var { .. } | Node::ArrayVar { .. } | Node::Composite { .. } | Node::Dereference { .. } => true,
        _ => false,
    }
}

/// The check made on an argument before it is evaluated: a `BYREF` parameter needs an
/// argument that names a place.
pub fn check_pass_by(byref: bool, arg_is_place: bool) -> (r: Result<(), CallError>)
    ensures
        r == (if byref && !arg_is_place {
            Err::<(), CallError>(CallError::NotAPlace)
        } else {
            Ok(())
        }),
{
    if byref && !arg_is_place {
        Err(CallError::NotAPlace)
    } else {
        Ok(())
    }
}

/// The checks made on one argument: how it is passed, then its type against the parameter's.
pub fn check_argument(byref: bool, arg_is_place: bool, arg_t: &VariableType, param_t: &VariableType) -> (r:
    Result<(), CallError>)
    ensures
        byref && !arg_is_place ==> r == Err::<(), CallError>(CallError::NotAPlace),
        !(byref && !arg_is_place) ==> (r is Ok <==> arg_t@ == param_t@),
        !(byref && !arg_is_place) && arg_t@ != param_t@ ==> r == Err::<(), CallError>(CallError::ArgumentType),
{
    match check_pass_by(byref, arg_is_place) {
        Err(e) => Err(e),
        Ok(()) => if types_equal(arg_t, param_t) {
            Ok(())
        } else {
            Err(CallError::ArgumentType)
        },
    }
}

/// How a call ends, given whether the callee is a function (`returns`) and whether its body
/// executed `RETURN`.
pub fn call_outcome(returns: bool, body_returned: bool) -> (r: Result<(), CallError>)
    ensures
        r == (if body_returned && !returns {
            Err::<(), CallError>(CallError::ReturnInProcedure)
        } else if !body_returned && returns {
            Err::<(), CallError>(CallError::MissingReturn)
        } else {
            Ok(())
        }),
{
    if body_returned && !returns {
        Err(CallError::ReturnInProcedure)
    } else if !body_returned && returns {
        Err(CallError::MissingReturn)
    } else {
        Ok(())
    }
}

/// The expressions a reference can be taken to are a variable, an array element, a field
/// access and a dereference; a literal, a call or an operation names no place. So a `BYREF`
/// parameter takes `x`, `a[i]`, `r.f` and `p^`, and refuses `1`, `f(x)` and `x + 1`.
pub proof fn law_places_are_variables_elements_fields_and_dereferences(n: NodeV)
    ensures
        (n is Var || n is ArrayVar || n is Composite || n is Dereference) ==> names_place(n),
        (n is Int || n is String || n is Boolean || n is Real || n is Date || n is FunctionCall
            || n is Binary || n is Unary || n is Reference || n is CreateObject) ==> !names_place(n),
{
}

} // verus!
