//! Boolean builtins.

use vstd::prelude::*;

use crate::builtins::{one_type, spec_reg};
use crate::error::Error;
use crate::interpreter::{Interpreter, InterpV, spec_builtin, step_matches};
use crate::value::{BuiltinFunction, BuiltinOp, Value, ValueType, ValueV};

verus! {

/// Push the boolean constant `true`.
pub(crate) fn f_true(interp: &mut Interpreter) -> (r: Result<(), Error>)
    requires
        old(interp).wf(),
    ensures
        final(interp).wf(),
        step_matches(final(interp)@, r, spec_builtin(old(interp)@, BuiltinOp::True)),
{
    interp.push(Value::Boolean(true));
    Ok(())
}

/// Push the boolean constant `false`.
pub(crate) fn f_false(interp: &mut Interpreter) -> (r: Result<(), Error>)
    requires
        old(interp).wf(),
    ensures
        final(interp).wf(),
        step_matches(final(interp)@, r, spec_builtin(old(interp)@, BuiltinOp::False)),
{
    interp.push(Value::Boolean(false));
    Ok(())
}

/// Pop a boolean and push its negation.
pub(crate) fn f_not(interp: &mut Interpreter) -> (r: Result<(), Error>)
    requires
        old(interp).wf(),
    ensures
        final(interp).wf(),
        step_matches(final(interp)@, r, spec_builtin(old(interp)@, BuiltinOp::Not)),
{
    let arg0 = match interp.pop() {
        Ok(v) => v,
        Err(e) => {
            return Err(e);
        },
    };
    match &arg0 {
        Value::Boolean(a0) => {
            interp.push(Value::Boolean(!*a0));
            Ok(())
        },
        _ => Err(Error::WrongArgumentType(arg0.type_(), one_type(ValueType::Boolean))),
    }
}

/// Pop two booleans and push their conjunction. The operand popped second
/// (the lower one) has its kind checked first; on failure both operands
/// remain consumed.
pub(crate) fn f_and(interp: &mut Interpreter) -> (r: Result<(), Error>)
    requires
        old(interp).wf(),
    ensures
        final(interp).wf(),
        step_matches(final(interp)@, r, spec_builtin(old(interp)@, BuiltinOp::And)),
{
    let arg1 = match interp.pop() {
        Ok(v) => v,
        Err(e) => {
            return Err(e);
        },
    };
    let arg0 = match interp.pop() {
        Ok(v) => v,
        Err(e) => {
            return Err(e);
        },
    };
    match (&arg0, &arg1) {
        (Value::Boolean(a0), Value::Boolean(a1)) => {
            interp.push(Value::Boolean(*a0 && *a1));
            Ok(())
        },
        (Value::Boolean(_), _) => Err(
            Error::WrongArgumentType(arg1.type_(), one_type(ValueType::Boolean)),
        ),
        _ => Err(Error::WrongArgumentType(arg0.type_(), one_type(ValueType::Boolean))),
    }
}

/// Pop two booleans and push their disjunction. The operand popped second
/// (the lower one) has its kind checked first; on failure both operands
/// remain consumed.
pub(crate) fn f_or(interp: &mut Interpreter) -> (r: Result<(), Error>)
    requires
        old(interp).wf(),
    ensures
        final(interp).wf(),
        step_matches(final(interp)@, r, spec_builtin(old(interp)@, BuiltinOp::Or)),
{
    let arg1 = match interp.pop() {
        Ok(v) => v,
        Err(e) => {
            return Err(e);
        },
    };
    let arg0 = match interp.pop() {
        Ok(v) => v,
        Err(e) => {
            return Err(e);
        },
    };
    match (&arg0, &arg1) {
        (Value::Boolean(a0), Value::Boolean(a1)) => {
            interp.push(Value::Boolean(*a0 || *a1));
            Ok(())
        },
        (Value::Boolean(_), _) => Err(
            Error::WrongArgumentType(arg1.type_(), one_type(ValueType::Boolean)),
        ),
        _ => Err(Error::WrongArgumentType(arg0.type_(), one_type(ValueType::Boolean))),
    }
}

/// What registering this module's builtins does to the namespace.
pub open spec fn spec_reg_all(d: Map<Seq<Seq<char>>, ValueV>) -> Map<Seq<Seq<char>>, ValueV> {
    spec_reg(
        spec_reg(
            spec_reg(
                spec_reg(spec_reg(d, "true"@, BuiltinOp::True), "false"@, BuiltinOp::False),
                "not"@,
                BuiltinOp::Not,
            ),
            "and"@,
            BuiltinOp::And,
        ),
        "or"@,
        BuiltinOp::Or,
    )
}

/// Bind the boolean builtins into the root namespace.
pub fn register_all(interp: &mut Interpreter)
    requires
        old(interp).wf(),
    ensures
        final(interp).wf(),
        final(interp)@ == (InterpV { dict: spec_reg_all(old(interp)@.dict), ..old(interp)@ }),
{
    proof {
        reveal_strlit("true");
        reveal_strlit("false");
        reveal_strlit("not");
        reveal_strlit("and");
        reveal_strlit("or");
    }
    interp.register_builtin(BuiltinFunction::new("true", BuiltinOp::True));
    interp.register_builtin(BuiltinFunction::new("false", BuiltinOp::False));
    interp.register_builtin(BuiltinFunction::new("not", BuiltinOp::Not));
    interp.register_builtin(BuiltinFunction::new("and", BuiltinOp::And));
    interp.register_builtin(BuiltinFunction::new("or", BuiltinOp::Or));
}

} // verus!
