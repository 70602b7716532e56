//! The native operation library: the concrete builtins a fresh session gets,
//! grouped as the namespace they form, together with the checked integer
//! arithmetic operations. Each operation's behaviour — which operands it
//! pops, in which order kinds are checked, what it pushes, which error it
//! reports — is fixed by `spec_builtin`.

pub mod boolean;
pub mod compare;
pub mod control_flow;
pub mod debug;
pub mod stack;

use vstd::prelude::*;

use crate::error::Error;
use crate::interpreter::{Interpreter, InterpV, spec_builtin, step_matches};
use crate::namespace::{spec_parse_path, spec_realize};
use crate::value::{BuiltinFunction, BuiltinOp, Value, ValueType, ValueV};

verus! {

/// The single acceptable kind of a builtin's operand, for a type-error
/// report.
pub(crate) fn one_type(t: ValueType) -> (r: Vec<ValueType>)
    ensures
        r@ == seq![t],
{
    let mut v: Vec<ValueType> = Vec::new();
    v.push(t);
    proof {
        assert(v@ =~= seq![t]);
    }
    v
}

/// What registering one operation does to the namespace: bind the operation
/// under its name, at the root.
pub open spec fn spec_reg(
    d: Map<Seq<Seq<char>>, ValueV>,
    name: Seq<char>,
    op: BuiltinOp,
) -> Map<Seq<Seq<char>>, ValueV> {
    d.insert(
        spec_realize(spec_parse_path(name), Seq::<Seq<char>>::empty()),
        ValueV::BuiltinFunction(name, op),
    )
}

/// The namespace a fresh session starts from: every builtin of the library,
/// bound at the root in registration order.
pub open spec fn spec_all_builtins(d: Map<Seq<Seq<char>>, ValueV>) -> Map<Seq<Seq<char>>, ValueV> {
    spec_reg(
        spec_reg(
            control_flow::spec_reg_all(
                boolean::spec_reg_all(compare::spec_reg_all(stack::spec_reg_all(debug::spec_reg_all(d)))),
            ),
            "add"@,
            BuiltinOp::Add,
        ),
        "mul"@,
        BuiltinOp::Mul,
    )
}

/// Pop two integers and push their checked sum; overflow is an error. The
/// topmost operand's kind is checked first; on failure both operands remain
/// consumed.
pub(crate) fn f_add(interp: &mut Interpreter) -> (r: Result<(), Error>)
    requires
        old(interp).wf(),
    ensures
        final(interp).wf(),
        step_matches(final(interp)@, r, spec_builtin(old(interp)@, BuiltinOp::Add)),
{
    let arg1 = match interp.pop() {
        Ok(v) => v,
        Err(e) => {
            return Err(e);
        },
    };
    let arg2 = match interp.pop() {
        Ok(v) => v,
        Err(e) => {
            return Err(e);
        },
    };
    match (&arg1, &arg2) {
        (Value::Integer(a1), Value::Integer(a2)) => {
            match u64::checked_add(*a1, *a2) {
                Some(res) => {
                    interp.push(Value::Integer(res));
                    Ok(())
                },
                None => Err(Error::IntegerOverflow),
            }
        },
        (Value::Integer(_), _) => Err(
            Error::WrongArgumentType(arg2.type_(), one_type(ValueType::Integer)),
        ),
        _ => Err(Error::WrongArgumentType(arg1.type_(), one_type(ValueType::Integer))),
    }
}

/// Pop two integers and push their checked product; overflow is an error.
/// The topmost operand's kind is checked first; on failure both operands
/// remain consumed.
pub(crate) fn f_multiply(interp: &mut Interpreter) -> (r: Result<(), Error>)
    requires
        old(interp).wf(),
    ensures
        final(interp).wf(),
        step_matches(final(interp)@, r, spec_builtin(old(interp)@, BuiltinOp::Mul)),
{
    let arg1 = match interp.pop() {
        Ok(v) => v,
        Err(e) => {
            return Err(e);
        },
    };
    let arg2 = match interp.pop() {
        Ok(v) => v,
        Err(e) => {
            return Err(e);
        },
    };
    match (&arg1, &arg2) {
        (Value::Integer(a1), Value::Integer(a2)) => {
            match u64::checked_mul(*a1, *a2) {
                Some(res) => {
                    interp.push(Value::Integer(res));
                    Ok(())
                },
                None => Err(Error::IntegerOverflow),
            }
        },
        (Value::Integer(_), _) => Err(
            Error::WrongArgumentType(arg2.type_(), one_type(ValueType::Integer)),
        ),
        _ => Err(Error::WrongArgumentType(arg1.type_(), one_type(ValueType::Integer))),
    }
}

/// Bind every builtin of the library into the root namespace. Performed once,
/// before any script runs.
pub fn register_all(interp: &mut Interpreter)
    requires
        old(interp).wf(),
    ensures
        final(interp).wf(),
        final(interp)@ == (InterpV { dict: spec_all_builtins(old(interp)@.dict), ..old(interp)@ }),
{
    debug::register_all(interp);
    stack::register_all(interp);
    compare::register_all(interp);
    boolean::register_all(interp);
    control_flow::register_all(interp);

    proof {
        reveal_strlit("add");
        reveal_strlit("mul");
    }
    interp.register_builtin(BuiltinFunction::new("add", BuiltinOp::Add));
    interp.register_builtin(BuiltinFunction::new("mul", BuiltinOp::Mul));
}

} // verus!
