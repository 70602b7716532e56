//! Assertion and inspection builtins.

use vstd::prelude::*;

use crate::builtins::{one_type, spec_reg};
use crate::error::Error;
use crate::interpreter::{Interpreter, InterpV, spec_builtin, step_matches};
use crate::value::{BuiltinFunction, BuiltinOp, Value, ValueType, ValueV};

verus! {

/// Pop a boolean and fail unless it is true.
pub(crate) fn f_assert(interp: &mut Interpreter) -> (r: Result<(), Error>)
    requires
        old(interp).wf(),
    ensures
        final(interp).wf(),
        step_matches(final(interp)@, r, spec_builtin(old(interp)@, BuiltinOp::Assert)),
{
    let arg1 = match interp.pop() {
        Ok(v) => v,
        Err(e) => {
            return Err(e);
        },
    };
    match &arg1 {
        Value::Boolean(a1) => {
            if *a1 {
                Ok(())
            } else {
                Err(Error::AssertionFailed)
            }
        },
        _ => Err(Error::WrongArgumentType(arg1.type_(), one_type(ValueType::Boolean))),
    }
}

/// Leave the state unchanged. The host may report the top of the stack to
/// its user; what it prints is no part of engine state.
pub(crate) fn f_dbgshow(interp: &mut Interpreter) -> (r: Result<(), Error>)
    requires
        old(interp).wf(),
    ensures
        final(interp).wf(),
        step_matches(final(interp)@, r, spec_builtin(old(interp)@, BuiltinOp::DbgShow)),
{
    Ok(())
}

/// What registering this module's builtins does to the namespace.
pub open spec fn spec_reg_all(d: Map<Seq<Seq<char>>, ValueV>) -> Map<Seq<Seq<char>>, ValueV> {
    spec_reg(spec_reg(d, "assert"@, BuiltinOp::Assert), "dbgshow"@, BuiltinOp::DbgShow)
}

/// Bind the assertion and inspection builtins into the root namespace.
pub fn register_all(interp: &mut Interpreter)
    requires
        old(interp).wf(),
    ensures
        final(interp).wf(),
        final(interp)@ == (InterpV { dict: spec_reg_all(old(interp)@.dict), ..old(interp)@ }),
{
    proof {
        reveal_strlit("assert");
        reveal_strlit("dbgshow");
    }
    interp.register_builtin(BuiltinFunction::new("assert", BuiltinOp::Assert));
    interp.register_builtin(BuiltinFunction::new("dbgshow", BuiltinOp::DbgShow));
}

} // verus!
