//! Error taxonomy of the execution core. Syntax errors come from the scanner
//! or from an unfinished function literal at end of input; the remaining
//! variants are runtime errors raised during token execution. Every error is
//! terminal for the enclosing `execute` call; the caller decides whether the
//! session goes on.

use vstd::prelude::*;

use crate::namespace::{SymbolPath, SymbolPathV};
use crate::value::ValueType;

verus! {

/// A lexical failure: the input ended while a comment was still open or a
/// function literal unfinished, or an assignment / namespace marker carried
/// no name.
#[derive(Debug, Clone, Copy, PartialEq, Eq, Structural)]
pub enum SyntaxError {
    UnexpectedEndOfInput,
    AssignToEmpty,
}

/// A failure during execution.
#[derive(Debug)]
pub enum Error {
    /// The scanner failed, or the input ended inside a function literal.
    InvalidSyntax(SyntaxError),
    /// A close brace with no matching open at the current control state.
    FunctionEndOutsideFunction,
    /// An operation needed an operand the data stack does not have.
    StackUnderflow,
    /// Identifier resolution exhausted the cursor's ancestors; carries the
    /// unresolved path.
    NameNotDefined(SymbolPath),
    /// Checked arithmetic overflowed.
    IntegerOverflow,
    /// A builtin's type check on a popped value failed; carries the actual
    /// kind and the acceptable kinds.
    WrongArgumentType(ValueType, Vec<ValueType>),
    /// The assertion primitive received a false value.
    AssertionFailed,
    /// Draining the continuation stack exceeded the engine's step ceiling, a
    /// fatal condition that bounds recursion depth in place of the host call
    /// stack.
    ExecutionLimitExceeded,
}

/// Mathematical model of an execution error.
#[verifier::ext_equal]
pub enum ErrorV {
    InvalidSyntax(SyntaxError),
    FunctionEndOutsideFunction,
    StackUnderflow,
    NameNotDefined(SymbolPathV),
    IntegerOverflow,
    WrongArgumentType(ValueType, Seq<ValueType>),
    AssertionFailed,
    ExecutionLimitExceeded,
}

impl View for Error {
    type V = ErrorV;

    open spec fn view(&self) -> ErrorV {
        match self {
            Error::InvalidSyntax(e) => ErrorV::InvalidSyntax(*e),
            Error::FunctionEndOutsideFunction => ErrorV::FunctionEndOutsideFunction,
            Error::StackUnderflow => ErrorV::StackUnderflow,
            Error::NameNotDefined(p) => ErrorV::NameNotDefined(p@),
            Error::IntegerOverflow => ErrorV::IntegerOverflow,
            Error::WrongArgumentType(actual, allowed) => ErrorV::WrongArgumentType(
                *actual,
                allowed@,
            ),
            Error::AssertionFailed => ErrorV::AssertionFailed,
            Error::ExecutionLimitExceeded => ErrorV::ExecutionLimitExceeded,
        }
    }
}

} // verus!
