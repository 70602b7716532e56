//! Stack-shuffling builtins.

use vstd::prelude::*;

use crate::builtins::spec_reg;
use crate::error::Error;
use crate::interpreter::{Interpreter, InterpV, spec_builtin, step_matches};
use crate::value::{BuiltinFunction, BuiltinOp, ValueV};

verus! {

/// `(a -- )`: pop the top value and discard it.
pub(crate) fn f_drop(interp: &mut Interpreter) -> (r: Result<(), Error>)
    requires
        old(interp).wf(),
    ensures
        final(interp).wf(),
        step_matches(final(interp)@, r, spec_builtin(old(interp)@, BuiltinOp::Drop)),
{
    match interp.pop() {
        Ok(_) => Ok(()),
        Err(e) => Err(e),
    }
}

/// `(a -- a a)`: pop the top value and push it back twice.
pub(crate) fn f_dup(interp: &mut Interpreter) -> (r: Result<(), Error>)
    requires
        old(interp).wf(),
    ensures
        final(interp).wf(),
        step_matches(final(interp)@, r, spec_builtin(old(interp)@, BuiltinOp::Dup)),
{
    let arg0 = match interp.pop() {
        Ok(v) => v,
        Err(e) => {
            return Err(e);
        },
    };
    proof {
        assert(old(interp)@.data.drop_last().push(arg0@) =~= old(interp)@.data);
    }
    interp.push(arg0.clone());
    interp.push(arg0);
    Ok(())
}

/// `(a b -- a b a)`: push a copy of the second value from the top.
pub(crate) fn f_over(interp: &mut Interpreter) -> (r: Result<(), Error>)
    requires
        old(interp).wf(),
    ensures
        final(interp).wf(),
        step_matches(final(interp)@, r, spec_builtin(old(interp)@, BuiltinOp::Over)),
{
    let arg1 = match interp.pop() {
        Ok(v) => v,
        Err(e) => {
            return Err(e);
        },
    };
    let arg0 = match interp.pop() {
        Ok(v) => v,
        Err(e) => {
            return Err(e);
        },
    };
    proof {
        assert(old(interp)@.data.drop_last().drop_last().push(arg0@).push(arg1@)
            =~= old(interp)@.data);
    }
    interp.push(arg0.clone());
    interp.push(arg1);
    interp.push(arg0);
    Ok(())
}

/// `(a b -- b a)`: exchange the two topmost values.
pub(crate) fn f_swap(interp: &mut Interpreter) -> (r: Result<(), Error>)
    requires
        old(interp).wf(),
    ensures
        final(interp).wf(),
        step_matches(final(interp)@, r, spec_builtin(old(interp)@, BuiltinOp::Swap)),
{
    let arg1 = match interp.pop() {
        Ok(v) => v,
        Err(e) => {
            return Err(e);
        },
    };
    let arg0 = match interp.pop() {
        Ok(v) => v,
        Err(e) => {
            return Err(e);
        },
    };
    interp.push(arg1);
    interp.push(arg0);
    Ok(())
}

/// `(a b c -- b c a)`: rotate the third value from the top to the top.
pub(crate) fn f_rot(interp: &mut Interpreter) -> (r: Result<(), Error>)
    requires
        old(interp).wf(),
    ensures
        final(interp).wf(),
        step_matches(final(interp)@, r, spec_builtin(old(interp)@, BuiltinOp::Rot)),
{
    let arg2 = match interp.pop() {
        Ok(v) => v,
        Err(e) => {
            return Err(e);
        },
    };
    let arg1 = match interp.pop() {
        Ok(v) => v,
        Err(e) => {
            return Err(e);
        },
    };
    let arg0 = match interp.pop() {
        Ok(v) => v,
        Err(e) => {
            return Err(e);
        },
    };
    interp.push(arg1);
    interp.push(arg2);
    interp.push(arg0);
    Ok(())
}

/// What registering this module's builtins does to the namespace.
pub open spec fn spec_reg_all(d: Map<Seq<Seq<char>>, ValueV>) -> Map<Seq<Seq<char>>, ValueV> {
    spec_reg(
        spec_reg(
            spec_reg(
                spec_reg(spec_reg(d, "drop"@, BuiltinOp::Drop), "dup"@, BuiltinOp::Dup),
                "over"@,
                BuiltinOp::Over,
            ),
            "swap"@,
            BuiltinOp::Swap,
        ),
        "rot"@,
        BuiltinOp::Rot,
    )
}

/// Bind the stack-shuffling builtins into the root namespace.
pub fn register_all(interp: &mut Interpreter)
    requires
        old(interp).wf(),
    ensures
        final(interp).wf(),
        final(interp)@ == (InterpV { dict: spec_reg_all(old(interp)@.dict), ..old(interp)@ }),
{
    proof {
        reveal_strlit("drop");
        reveal_strlit("dup");
        reveal_strlit("over");
        reveal_strlit("swap");
        reveal_strlit("rot");
    }
    interp.register_builtin(BuiltinFunction::new("drop", BuiltinOp::Drop));
    interp.register_builtin(BuiltinFunction::new("dup", BuiltinOp::Dup));
    interp.register_builtin(BuiltinFunction::new("over", BuiltinOp::Over));
    interp.register_builtin(BuiltinFunction::new("swap", BuiltinOp::Swap));
    interp.register_builtin(BuiltinFunction::new("rot", BuiltinOp::Rot));
}

} // verus!
