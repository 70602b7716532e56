//! Control-flow builtins.

use vstd::prelude::*;

use crate::builtins::{one_type, spec_reg};
use crate::error::Error;
use crate::interpreter::{Interpreter, InterpV, spec_builtin, step_matches};
use crate::value::{BuiltinFunction, BuiltinOp, Value, ValueType, ValueV};

verus! {

/// Pop a value and execute it: call a builtin, defer a function's tokens,
/// push any other value back as a literal.
pub(crate) fn f_exec(interp: &mut Interpreter) -> (r: Result<(), Error>)
    requires
        old(interp).wf(),
    ensures
        final(interp).wf(),
        step_matches(final(interp)@, r, spec_builtin(old(interp)@, BuiltinOp::Exec)),
{
    let arg0 = match interp.pop() {
        Ok(v) => v,
        Err(e) => {
            return Err(e);
        },
    };
    interp.execute_value(arg0)
}

/// Pop a boolean; when it is false, arm the one-shot skip, so the token or
/// function literal that follows is discarded rather than executed. The
/// conditional therefore consumes its boolean before its guarded unit is
/// scanned: `false if { .. }` skips the literal.
pub(crate) fn f_if(interp: &mut Interpreter) -> (r: Result<(), Error>)
    requires
        old(interp).wf(),
    ensures
        final(interp).wf(),
        step_matches(final(interp)@, r, spec_builtin(old(interp)@, BuiltinOp::If)),
{
    let arg0 = match interp.pop() {
        Ok(v) => v,
        Err(e) => {
            return Err(e);
        },
    };
    match &arg0 {
        Value::Boolean(a0) => {
            if !*a0 {
                interp.set_skip();
            }
            Ok(())
        },
        _ => Err(Error::WrongArgumentType(arg0.type_(), one_type(ValueType::Boolean))),
    }
}

/// What registering this module's builtins does to the namespace.
pub open spec fn spec_reg_all(d: Map<Seq<Seq<char>>, ValueV>) -> Map<Seq<Seq<char>>, ValueV> {
    spec_reg(spec_reg(d, "exec"@, BuiltinOp::Exec), "if"@, BuiltinOp::If)
}

/// Bind the control-flow builtins into the root namespace.
pub fn register_all(interp: &mut Interpreter)
    requires
        old(interp).wf(),
    ensures
        final(interp).wf(),
        final(interp)@ == (InterpV { dict: spec_reg_all(old(interp)@.dict), ..old(interp)@ }),
{
    proof {
        reveal_strlit("exec");
        reveal_strlit("if");
    }
    interp.register_builtin(BuiltinFunction::new("exec", BuiltinOp::Exec));
    interp.register_builtin(BuiltinFunction::new("if", BuiltinOp::If));
}

} // verus!
