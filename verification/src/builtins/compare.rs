//! Comparison builtins.

use vstd::prelude::*;

use crate::builtins::{one_type, spec_reg};
use crate::error::Error;
use crate::interpreter::{Interpreter, InterpV, spec_builtin, step_matches};
use crate::value::{BuiltinFunction, BuiltinOp, Value, ValueType, ValueV, value_eq};

verus! {

/// Pop two values and push whether they are equal, as scripts observe
/// equality: builtins compare by name, other kinds by content, values of
/// different kinds are never equal.
pub(crate) fn f_eq(interp: &mut Interpreter) -> (r: Result<(), Error>)
    requires
        old(interp).wf(),
    ensures
        final(interp).wf(),
        step_matches(final(interp)@, r, spec_builtin(old(interp)@, BuiltinOp::Eq)),
{
    let arg1 = match interp.pop() {
        Ok(v) => v,
        Err(e) => {
            return Err(e);
        },
    };
    let arg2 = match interp.pop() {
        Ok(v) => v,
        Err(e) => {
            return Err(e);
        },
    };
    let b = value_eq(&arg1, &arg2);
    interp.push(Value::Boolean(b));
    Ok(())
}

/// Pop two integers and push whether the lower is less than the upper. The
/// operand popped second (the lower one) has its kind checked first; on
/// failure both operands remain consumed.
pub(crate) fn f_lt(interp: &mut Interpreter) -> (r: Result<(), Error>)
    requires
        old(interp).wf(),
    ensures
        final(interp).wf(),
        step_matches(final(interp)@, r, spec_builtin(old(interp)@, BuiltinOp::Lt)),
{
    let arg1 = match interp.pop() {
        Ok(v) => v,
        Err(e) => {
            return Err(e);
        },
    };
    let arg0 = match interp.pop() {
        Ok(v) => v,
        Err(e) => {
            return Err(e);
        },
    };
    match (&arg0, &arg1) {
        (Value::Integer(a0), Value::Integer(a1)) => {
            interp.push(Value::Boolean(*a0 < *a1));
            Ok(())
        },
        (Value::Integer(_), _) => Err(
            Error::WrongArgumentType(arg1.type_(), one_type(ValueType::Integer)),
        ),
        _ => Err(Error::WrongArgumentType(arg0.type_(), one_type(ValueType::Integer))),
    }
}

/// What registering this module's builtins does to the namespace.
pub open spec fn spec_reg_all(d: Map<Seq<Seq<char>>, ValueV>) -> Map<Seq<Seq<char>>, ValueV> {
    spec_reg(spec_reg(d, "eq"@, BuiltinOp::Eq), "lt"@, BuiltinOp::Lt)
}

/// Bind the comparison builtins into the root namespace.
pub fn register_all(interp: &mut Interpreter)
    requires
        old(interp).wf(),
    ensures
        final(interp).wf(),
        final(interp)@ == (InterpV { dict: spec_reg_all(old(interp)@.dict), ..old(interp)@ }),
{
    proof {
        reveal_strlit("eq");
        reveal_strlit("lt");
    }
    interp.register_builtin(BuiltinFunction::new("eq", BuiltinOp::Eq));
    interp.register_builtin(BuiltinFunction::new("lt", BuiltinOp::Lt));
}

} // verus!
