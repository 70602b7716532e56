//! The interpreter engine: an explicit state object owning the namespace, the
//! data stack, the continuation stack and the scan state, together with the
//! mathematical transition functions that define what executing a token does.
//!
//! The model `InterpV` mirrors the engine state; `spec_execute_token`,
//! `spec_builtin`, `spec_execute_value`, `spec_execute_ident` and `spec_step`
//! are the transition functions, each returning the successor state and the
//! outcome. The driver relation `spec_config_step` ties the engine to the
//! scanner: `execute` is proved to follow it step by step.

use vstd::prelude::*;

use crate::builtins;
use crate::error::{Error, ErrorV, SyntaxError};
use crate::namespace::{
    AbsoluteSymbolPath, Namespace, SymbolPath, SymbolPathV, spec_parse_path, spec_realize,
    spec_resolve_fallback,
};
use crate::scanner::{Token, TokenV, scan_token, spec_scan_token, tokens_view};
use crate::value::{BuiltinFunction, BuiltinOp, Value, ValueType, ValueV, value_v_eq, values_view};

verus! {

/// Mathematical model of the engine state.
#[verifier::ext_equal]
pub struct InterpV {
    /// The namespace cursor: relative names resolve against it.
    pub current_namespace: Seq<Seq<char>>,
    /// One-shot: the next token-application event is discarded.
    pub skip_next: bool,
    /// Depth of open function literals.
    pub nesting: nat,
    /// Tokens accumulated while `nesting > 0`.
    pub scan: Seq<TokenV>,
    /// The data stack; the last element is the top.
    pub data: Seq<ValueV>,
    /// The continuation stack of pending tokens; the last element runs next.
    pub call: Seq<TokenV>,
    /// The namespace: bindings of absolute paths to values.
    pub dict: Map<Seq<Seq<char>>, ValueV>,
}

impl InterpV {
    /// The state invariant: the scan buffer is empty outside a literal, the
    /// scan buffer and the continuation stack hold only non-brace tokens with
    /// non-empty names, and every value on the data stack or in the namespace
    /// is well formed.
    pub open spec fn wf(self) -> bool {
        &&& (self.nesting == 0 ==> self.scan.len() == 0)
        &&& forall|i: int| 0 <= i < self.scan.len() ==> (#[trigger] self.scan[i]).inner_wf()
        &&& forall|i: int| 0 <= i < self.call.len() ==> (#[trigger] self.call[i]).inner_wf()
        &&& forall|i: int| 0 <= i < self.data.len() ==> (#[trigger] self.data[i]).wf()
        &&& forall|k: Seq<Seq<char>>|
            self.dict.contains_key(k) ==> (#[trigger] self.dict[k]).wf()
    }

    /// This state with another data stack.
    pub open spec fn with_data(self, data: Seq<ValueV>) -> InterpV {
        InterpV { data, ..self }
    }

    /// This state with a value pushed onto the data stack.
    pub open spec fn pushed(self, v: ValueV) -> InterpV {
        self.with_data(self.data.push(v))
    }
}

/// Pushing a well-formed value onto the stack of a well-formed state keeps
/// the state well formed.
pub proof fn lemma_wf_pushed(s: InterpV, v: ValueV)
    requires
        s.wf(),
        v.wf(),
    ensures
        s.pushed(v).wf(),
{
    let d = s.pushed(v).data;
    assert forall|i: int| 0 <= i < d.len() implies (#[trigger] d[i]).wf() by {
        if i < s.data.len() {
            assert(d[i] == s.data[i]);
        } else {
            assert(d[i] == v);
        }
    }
}

/// How one executable result relates to the model's transition outcome: the
/// new state is the transition's state and the results agree.
pub open spec fn step_matches(
    s_new: InterpV,
    r: Result<(), Error>,
    step: (InterpV, Result<(), ErrorV>),
) -> bool {
    &&& s_new == step.0
    &&& match (r, step.1) {
        (Ok(()), Ok(())) => true,
        (Err(e), Err(ev)) => e@ == ev,
        _ => false,
    }
}

/// A decimal digit.
pub open spec fn spec_is_digit(c: char) -> bool {
    '0' as int <= c as int <= '9' as int
}

/// The number written by a digit sequence, most significant digit first.
pub open spec fn spec_digits_val(s: Seq<char>) -> int
    decreases s.len(),
{
    if s.len() == 0 {
        0
    } else {
        spec_digits_val(s.drop_last()) * 10 + (s.last() as int - '0' as int)
    }
}

/// What a numeric literal denotes: a name of one or more digits whose value
/// fits in 64 bits, or nothing. Numeric literals are never looked up in the
/// namespace.
pub open spec fn spec_parse_u64(s: Seq<char>) -> Option<u64> {
    if s.len() > 0 && (forall|i: int| 0 <= i < s.len() ==> spec_is_digit(#[trigger] s[i]))
        && spec_digits_val(s) <= u64::MAX {
        Some(spec_digits_val(s) as u64)
    } else {
        None
    }
}

/// What running a native operation does to the state: which operands it
/// pops, in which order their kinds are checked, and what it pushes or which
/// error it reports. Operands are consumed even when the operation then
/// fails: a failed checked addition, for instance, leaves both integers
/// popped.
pub open spec fn spec_builtin(s: InterpV, op: BuiltinOp) -> (InterpV, Result<(), ErrorV>)
    decreases s.data.len(), 0int,
{
    let n = s.data.len();
    match op {
        BuiltinOp::Drop => {
            if n == 0 {
                (s, Err(ErrorV::StackUnderflow))
            } else {
                (s.with_data(s.data.drop_last()), Ok(()))
            }
        },
        BuiltinOp::Dup => {
            if n == 0 {
                (s, Err(ErrorV::StackUnderflow))
            } else {
                (s.pushed(s.data.last()), Ok(()))
            }
        },
        BuiltinOp::Over => {
            if n == 0 {
                (s, Err(ErrorV::StackUnderflow))
            } else if n == 1 {
                (s.with_data(s.data.drop_last()), Err(ErrorV::StackUnderflow))
            } else {
                (s.pushed(s.data[n - 2]), Ok(()))
            }
        },
        BuiltinOp::Swap => {
            if n == 0 {
                (s, Err(ErrorV::StackUnderflow))
            } else if n == 1 {
                (s.with_data(s.data.drop_last()), Err(ErrorV::StackUnderflow))
            } else {
                let y = s.data.last();
                let x = s.data[n - 2];
                (s.with_data(s.data.drop_last().drop_last().push(y).push(x)), Ok(()))
            }
        },
        BuiltinOp::Rot => {
            if n == 0 {
                (s, Err(ErrorV::StackUnderflow))
            } else if n == 1 {
                (s.with_data(s.data.drop_last()), Err(ErrorV::StackUnderflow))
            } else if n == 2 {
                (s.with_data(s.data.drop_last().drop_last()), Err(ErrorV::StackUnderflow))
            } else {
                let z = s.data.last();
                let y = s.data[n - 2];
                let x = s.data[n - 3];
                let rest = s.data.drop_last().drop_last().drop_last();
                (s.with_data(rest.push(y).push(z).push(x)), Ok(()))
            }
        },
        BuiltinOp::Add => spec_arith(s, true),
        BuiltinOp::Mul => spec_arith(s, false),
        BuiltinOp::Eq => {
            if n == 0 {
                (s, Err(ErrorV::StackUnderflow))
            } else if n == 1 {
                (s.with_data(s.data.drop_last()), Err(ErrorV::StackUnderflow))
            } else {
                let a1 = s.data.last();
                let a2 = s.data[n - 2];
                let rest = s.data.drop_last().drop_last();
                (s.with_data(rest.push(ValueV::Boolean(value_v_eq(a1, a2)))), Ok(()))
            }
        },
        BuiltinOp::Lt => {
            if n == 0 {
                (s, Err(ErrorV::StackUnderflow))
            } else if n == 1 {
                (s.with_data(s.data.drop_last()), Err(ErrorV::StackUnderflow))
            } else {
                let a1 = s.data.last();
                let a0 = s.data[n - 2];
                let rest = s.data.drop_last().drop_last();
                match (a0, a1) {
                    (ValueV::Integer(x), ValueV::Integer(y)) => (
                        s.with_data(rest.push(ValueV::Boolean(x < y))),
                        Ok(()),
                    ),
                    (ValueV::Integer(x), _) => (
                        s.with_data(rest),
                        Err(ErrorV::WrongArgumentType(a1.type_of(), seq![ValueType::Integer])),
                    ),
                    _ => (
                        s.with_data(rest),
                        Err(ErrorV::WrongArgumentType(a0.type_of(), seq![ValueType::Integer])),
                    ),
                }
            }
        },
        BuiltinOp::True => (s.pushed(ValueV::Boolean(true)), Ok(())),
        BuiltinOp::False => (s.pushed(ValueV::Boolean(false)), Ok(())),
        BuiltinOp::Not => {
            if n == 0 {
                (s, Err(ErrorV::StackUnderflow))
            } else {
                let a0 = s.data.last();
                let rest = s.data.drop_last();
                match a0 {
                    ValueV::Boolean(b) => (s.with_data(rest.push(ValueV::Boolean(!b))), Ok(())),
                    _ => (
                        s.with_data(rest),
                        Err(ErrorV::WrongArgumentType(a0.type_of(), seq![ValueType::Boolean])),
                    ),
                }
            }
        },
        BuiltinOp::And => spec_bool_binop(s, true),
        BuiltinOp::Or => spec_bool_binop(s, false),
        BuiltinOp::Exec => {
            if n == 0 {
                (s, Err(ErrorV::StackUnderflow))
            } else {
                spec_execute_value(s.with_data(s.data.drop_last()), s.data.last())
            }
        },
        BuiltinOp::If => {
            if n == 0 {
                (s, Err(ErrorV::StackUnderflow))
            } else {
                let a0 = s.data.last();
                let rest = s.data.drop_last();
                match a0 {
                    ValueV::Boolean(b) => (
                        InterpV {
                            skip_next: if !b {
                                true
                            } else {
                                s.skip_next
                            },
                            ..s.with_data(rest)
                        },
                        Ok(()),
                    ),
                    _ => (
                        s.with_data(rest),
                        Err(ErrorV::WrongArgumentType(a0.type_of(), seq![ValueType::Boolean])),
                    ),
                }
            }
        },
        BuiltinOp::Assert => {
            if n == 0 {
                (s, Err(ErrorV::StackUnderflow))
            } else {
                let a0 = s.data.last();
                let rest = s.data.drop_last();
                match a0 {
                    ValueV::Boolean(b) => {
                        if b {
                            (s.with_data(rest), Ok(()))
                        } else {
                            (s.with_data(rest), Err(ErrorV::AssertionFailed))
                        }
                    },
                    _ => (
                        s.with_data(rest),
                        Err(ErrorV::WrongArgumentType(a0.type_of(), seq![ValueType::Boolean])),
                    ),
                }
            }
        },
        BuiltinOp::DbgShow => (s, Ok(())),
    }
}

/// Checked integer arithmetic: pop two integers, push their sum or product,
/// or fail. The topmost operand's kind is checked first; on any failure both
/// operands remain consumed.
pub open spec fn spec_arith(s: InterpV, is_add: bool) -> (InterpV, Result<(), ErrorV>) {
    let n = s.data.len();
    if n == 0 {
        (s, Err(ErrorV::StackUnderflow))
    } else if n == 1 {
        (s.with_data(s.data.drop_last()), Err(ErrorV::StackUnderflow))
    } else {
        let a1 = s.data.last();
        let a2 = s.data[n - 2];
        let rest = s.data.drop_last().drop_last();
        match (a1, a2) {
            (ValueV::Integer(x1), ValueV::Integer(x2)) => {
                let v = if is_add {
                    x1 as int + x2 as int
                } else {
                    x1 as int * x2 as int
                };
                if v > u64::MAX {
                    (s.with_data(rest), Err(ErrorV::IntegerOverflow))
                } else {
                    (s.with_data(rest.push(ValueV::Integer(v as u64))), Ok(()))
                }
            },
            (ValueV::Integer(x1), _) => (
                s.with_data(rest),
                Err(ErrorV::WrongArgumentType(a2.type_of(), seq![ValueType::Integer])),
            ),
            _ => (
                s.with_data(rest),
                Err(ErrorV::WrongArgumentType(a1.type_of(), seq![ValueType::Integer])),
            ),
        }
    }
}

/// Boolean conjunction or disjunction: pop two booleans, push the result.
/// The operand popped second (the lower one) has its kind checked first; on
/// failure both operands remain consumed.
pub open spec fn spec_bool_binop(s: InterpV, is_and: bool) -> (InterpV, Result<(), ErrorV>) {
    let n = s.data.len();
    if n == 0 {
        (s, Err(ErrorV::StackUnderflow))
    } else if n == 1 {
        (s.with_data(s.data.drop_last()), Err(ErrorV::StackUnderflow))
    } else {
        let a1 = s.data.last();
        let a0 = s.data[n - 2];
        let rest = s.data.drop_last().drop_last();
        match (a0, a1) {
            (ValueV::Boolean(b0), ValueV::Boolean(b1)) => {
                let b = if is_and {
                    b0 && b1
                } else {
                    b0 || b1
                };
                (s.with_data(rest.push(ValueV::Boolean(b))), Ok(()))
            },
            (ValueV::Boolean(b0), _) => (
                s.with_data(rest),
                Err(ErrorV::WrongArgumentType(a1.type_of(), seq![ValueType::Boolean])),
            ),
            _ => (
                s.with_data(rest),
                Err(ErrorV::WrongArgumentType(a0.type_of(), seq![ValueType::Boolean])),
            ),
        }
    }
}

/// What executing a value does: a builtin runs at once; a function's captured
/// tokens are deferred onto the continuation stack in reverse order, so that
/// popping reproduces their original order; any other value is pushed onto
/// the data stack as a literal.
pub open spec fn spec_execute_value(s: InterpV, v: ValueV) -> (InterpV, Result<(), ErrorV>)
    decreases s.data.len(), 1int,
{
    match v {
        ValueV::BuiltinFunction(name, op) => spec_builtin(s, op),
        ValueV::Function(ts) => (InterpV { call: s.call + ts.reverse(), ..s }, Ok(())),
        _ => (s.pushed(v), Ok(())),
    }
}

/// What executing an identifier does: a numeric literal pushes its integer;
/// any other name is parsed as a symbol path and resolved — directly when
/// absolute, with ancestor fallback when relative — and the bound value is
/// executed; an unresolved name fails, carrying the parsed path.
pub open spec fn spec_execute_ident(s: InterpV, name: Seq<char>) -> (InterpV, Result<(), ErrorV>)
    decreases s.data.len(), 2int,
{
    match spec_parse_u64(name) {
        Some(x) => (s.pushed(ValueV::Integer(x)), Ok(())),
        None => {
            let sp = spec_parse_path(name);
            match sp {
                SymbolPathV::Absolute(segs) => {
                    if s.dict.contains_key(segs) {
                        spec_execute_value(s, s.dict[segs])
                    } else {
                        (s, Err(ErrorV::NameNotDefined(sp)))
                    }
                },
                SymbolPathV::Relative(segs) => {
                    match spec_resolve_fallback(s.dict, s.current_namespace, segs) {
                        Some(v) => spec_execute_value(s, v),
                        None => (s, Err(ErrorV::NameNotDefined(sp))),
                    }
                },
            }
        },
    }
}

/// What executing one token does, by control state. Collecting (`nesting >
/// 0`): braces move the depth counter, the literal's last close either
/// discards the buffer (when a skip was armed, which this clears) or pushes
/// it as a function value, and every other token is buffered. Skipping:
/// a function literal about to open becomes the unit being skipped; any
/// other single token is discarded and the skip is cleared. Normally:
/// assignment pops and binds, a namespace switch moves the cursor, and an
/// identifier executes. A close brace with no open literal is an error in
/// either non-collecting state.
pub open spec fn spec_execute_token(s: InterpV, t: TokenV) -> (InterpV, Result<(), ErrorV>) {
    if s.nesting > 0 {
        match t {
            TokenV::FunctionStart => (InterpV { nesting: s.nesting + 1, ..s }, Ok(())),
            TokenV::FunctionEnd => {
                if s.nesting == 1 {
                    if s.skip_next {
                        (
                            InterpV { nesting: 0, scan: Seq::empty(), skip_next: false, ..s },
                            Ok(()),
                        )
                    } else {
                        (
                            InterpV {
                                nesting: 0,
                                scan: Seq::empty(),
                                data: s.data.push(ValueV::Function(s.scan)),
                                ..s
                            },
                            Ok(()),
                        )
                    }
                } else {
                    (InterpV { nesting: (s.nesting - 1) as nat, ..s }, Ok(()))
                }
            },
            _ => (InterpV { scan: s.scan.push(t), ..s }, Ok(())),
        }
    } else if s.skip_next {
        match t {
            TokenV::FunctionStart => (InterpV { nesting: 1, ..s }, Ok(())),
            TokenV::FunctionEnd => (s, Err(ErrorV::FunctionEndOutsideFunction)),
            _ => (InterpV { skip_next: false, ..s }, Ok(())),
        }
    } else {
        match t {
            TokenV::FunctionStart => (InterpV { nesting: 1, ..s }, Ok(())),
            TokenV::FunctionEnd => (s, Err(ErrorV::FunctionEndOutsideFunction)),
            TokenV::AssignIdentifier(name) => {
                if s.data.len() == 0 {
                    (s, Err(ErrorV::StackUnderflow))
                } else {
                    (
                        InterpV {
                            data: s.data.drop_last(),
                            dict: s.dict.insert(
                                spec_realize(spec_parse_path(name), s.current_namespace),
                                s.data.last(),
                            ),
                            ..s
                        },
                        Ok(()),
                    )
                }
            },
            TokenV::SetNamespace(name) => (
                InterpV {
                    current_namespace: spec_realize(spec_parse_path(name), s.current_namespace),
                    ..s
                },
                Ok(()),
            ),
            TokenV::Identifier(name) => spec_execute_ident(s, name),
        }
    }
}

/// One step of draining the continuation stack: pop the pending token that
/// runs next and execute it. On an empty stack there is nothing to do.
pub open spec fn spec_step(s: InterpV) -> (InterpV, Result<(), ErrorV>) {
    if s.call.len() == 0 {
        (s, Ok(()))
    } else {
        spec_execute_token(InterpV { call: s.call.drop_last(), ..s }, s.call.last())
    }
}

/// A driver configuration: the engine state and the scan position in the
/// source text.
#[verifier::ext_equal]
pub struct ConfigV {
    pub state: InterpV,
    pub pos: int,
}

/// The outcome of one driver step.
#[verifier::ext_equal]
pub enum DriverOutcome {
    /// The configuration advanced.
    Progress,
    /// The source is exhausted with no pending work: a clean stop.
    Halted,
    /// Execution failed; the configuration is the state at failure.
    Failed(ErrorV),
}

/// One step of the driver: drain one pending continuation token if there is
/// one; otherwise scan the next source token and execute it. The driver
/// halts at the end of the source, unless a function literal is still open,
/// which is incomplete input. (Opaque so that reasoning about whole runs
/// does not unfold the transition functions at every configuration; reveal
/// it to step a particular configuration.)
#[verifier::opaque]
pub open spec fn spec_config_step(src: Seq<char>, c: ConfigV) -> (ConfigV, DriverOutcome) {
    if c.state.call.len() > 0 {
        let (s2, res) = spec_step(c.state);
        let c2 = ConfigV { state: s2, pos: c.pos };
        match res {
            Ok(()) => (c2, DriverOutcome::Progress),
            Err(e) => (c2, DriverOutcome::Failed(e)),
        }
    } else {
        match spec_scan_token(src, c.pos) {
            Err(e) => (c, DriverOutcome::Failed(ErrorV::InvalidSyntax(e))),
            Ok(None) => {
                if c.state.nesting > 0 {
                    (
                        c,
                        DriverOutcome::Failed(
                            ErrorV::InvalidSyntax(SyntaxError::UnexpectedEndOfInput),
                        ),
                    )
                } else {
                    (c, DriverOutcome::Halted)
                }
            },
            Ok(Some((t, q))) => {
                let (s2, res) = spec_execute_token(c.state, t);
                let c2 = ConfigV { state: s2, pos: q };
                match res {
                    Ok(()) => (c2, DriverOutcome::Progress),
                    Err(e) => (c2, DriverOutcome::Failed(e)),
                }
            },
        }
    }
}

/// A finite run of the driver from `c1` to `c2`: consecutive configurations,
/// each one driver step apart.
pub open spec fn is_trace(src: Seq<char>, tr: Seq<ConfigV>, c1: ConfigV, c2: ConfigV) -> bool {
    &&& tr.len() >= 1
    &&& tr[0] == c1
    &&& tr.last() == c2
    &&& forall|i: int|
        0 <= i < tr.len() - 1 ==> spec_config_step(src, #[trigger] tr[i]) == (
            tr[i + 1],
            DriverOutcome::Progress,
        )
}

/// Whether the driver, started at `c1`, passes through `c2`.
pub open spec fn reaches(src: Seq<char>, c1: ConfigV, c2: ConfigV) -> bool {
    exists|tr: Seq<ConfigV>| is_trace(src, tr, c1, c2)
}

/// A run extended by one step of progress is a run to the successor.
#[verifier::rlimit(100)]
#[verifier::spinoff_prover]
pub proof fn lemma_trace_extend(src: Seq<char>, tr: Seq<ConfigV>, c1: ConfigV, c2: ConfigV, c3: ConfigV)
    requires
        is_trace(src, tr, c1, c2),
        spec_config_step(src, c2) == (c3, DriverOutcome::Progress),
    ensures
        is_trace(src, tr.push(c3), c1, c3),
{
    let tr2 = tr.push(c3);
    assert forall|i: int| 0 <= i < tr2.len() - 1 implies spec_config_step(src, #[trigger] tr2[i])
        == (tr2[i + 1], DriverOutcome::Progress) by {
        if i < tr.len() - 1 {
            assert(tr2[i] == tr[i]);
            assert(tr2[i + 1] == tr[i + 1]);
        } else {
            assert(tr2[i] == tr.last());
            assert(tr2[i + 1] == c3);
        }
    }
}

/// Two runs from one configuration agree, position by position.
proof fn lemma_trace_agree(
    src: Seq<char>,
    tr1: Seq<ConfigV>,
    tr2: Seq<ConfigV>,
    c1: ConfigV,
    ca: ConfigV,
    cb: ConfigV,
    i: int,
)
    requires
        is_trace(src, tr1, c1, ca),
        is_trace(src, tr2, c1, cb),
        0 <= i < tr1.len(),
        i < tr2.len(),
    ensures
        tr1[i] == tr2[i],
    decreases i,
{
    if i > 0 {
        lemma_trace_agree(src, tr1, tr2, c1, ca, cb, i - 1);
        assert(spec_config_step(src, tr1[i - 1]) == (tr1[i], DriverOutcome::Progress));
        assert(spec_config_step(src, tr2[i - 1]) == (tr2[i], DriverOutcome::Progress));
    }
}

/// Runs never pass a stopped configuration: when one run from `c0` has
/// stopped making progress — halted or failed — every run from `c0` is a
/// prefix of it. In particular no run from `c0` is longer, so on a source
/// whose run stops within the budgets the ceiling error is impossible.
pub proof fn lemma_trace_prefix_of_stopped(
    src: Seq<char>,
    tr1: Seq<ConfigV>,
    tr2: Seq<ConfigV>,
    c0: ConfigV,
    ca: ConfigV,
    cb: ConfigV,
)
    requires
        is_trace(src, tr1, c0, ca),
        is_trace(src, tr2, c0, cb),
        !(spec_config_step(src, ca).1 is Progress),
    ensures
        tr2.len() <= tr1.len(),
        forall|i: int| 0 <= i < tr2.len() ==> tr2[i] == tr1[i],
{
    if tr2.len() > tr1.len() {
        lemma_trace_agree(src, tr1, tr2, c0, ca, cb, tr1.len() - 1);
        assert(tr2[tr1.len() - 1] == ca);
        assert(spec_config_step(src, tr2[tr1.len() - 1]) == (
            tr2[tr1.len() as int],
            DriverOutcome::Progress,
        ));
    }
    assert forall|i: int| 0 <= i < tr2.len() implies tr2[i] == tr1[i] by {
        lemma_trace_agree(src, tr1, tr2, c0, ca, cb, i);
    }
}

/// The driver is deterministic (law): the engine performs no input, output
/// or other outside effect, so the run is a function of the starting state
/// and the source text alone. Any two runs from one starting configuration
/// that have both stopped making progress — halted or failed — stand at one
/// and the same configuration, with one and the same outcome.
pub proof fn lemma_run_deterministic(src: Seq<char>, c0: ConfigV, ca: ConfigV, cb: ConfigV)
    requires
        reaches(src, c0, ca),
        reaches(src, c0, cb),
        !(spec_config_step(src, ca).1 is Progress),
        !(spec_config_step(src, cb).1 is Progress),
    ensures
        ca == cb,
{
    let tr1 = choose|tr: Seq<ConfigV>| is_trace(src, tr, c0, ca);
    let tr2 = choose|tr: Seq<ConfigV>| is_trace(src, tr, c0, cb);
    if tr1.len() < tr2.len() {
        lemma_trace_agree(src, tr1, tr2, c0, ca, cb, tr1.len() - 1);
        assert(tr2[tr1.len() - 1] == ca);
        assert(spec_config_step(src, tr2[tr1.len() - 1]) == (
            tr2[tr1.len() as int],
            DriverOutcome::Progress,
        ));
    } else if tr2.len() < tr1.len() {
        lemma_trace_agree(src, tr1, tr2, c0, ca, cb, tr2.len() - 1);
        assert(tr1[tr2.len() - 1] == cb);
        assert(spec_config_step(src, tr1[tr2.len() - 1]) == (
            tr1[tr2.len() as int],
            DriverOutcome::Progress,
        ));
    } else {
        lemma_trace_agree(src, tr1, tr2, c0, ca, cb, tr1.len() - 1);
    }
}

/// The interpreter: the engine state, created once per session. All
/// observable behaviour is stated over its model `InterpV`.
#[derive(Debug)]
pub struct Interpreter {
    current_namespace: AbsoluteSymbolPath,
    skip_next: bool,
    nesting: usize,
    scan: Vec<Token>,
    data: Vec<Value>,
    call: Vec<Token>,
    dict: Namespace,
}

impl View for Interpreter {
    type V = InterpV;

    closed spec fn view(&self) -> InterpV {
        InterpV {
            current_namespace: self.current_namespace@,
            skip_next: self.skip_next,
            nesting: self.nesting as nat,
            scan: tokens_view(self.scan@),
            data: values_view(self.data@),
            call: tokens_view(self.call@),
            dict: self.dict@,
        }
    }
}

impl Interpreter {
    /// The state invariant, carried by every public operation.
    pub closed spec fn wf(&self) -> bool {
        self@.wf() && self.dict.wf()
    }

    /// A fresh interpreter: root cursor, no skip armed, no open literal,
    /// empty stacks, empty namespace.
    pub fn new() -> (r: Self)
        ensures
            r.wf(),
            r@ == (InterpV {
                current_namespace: Seq::<Seq<char>>::empty(),
                skip_next: false,
                nesting: 0,
                scan: Seq::<TokenV>::empty(),
                data: Seq::<ValueV>::empty(),
                call: Seq::<TokenV>::empty(),
                dict: Map::<Seq<Seq<char>>, ValueV>::empty(),
            }),
    {
        let r = Interpreter {
            current_namespace: AbsoluteSymbolPath::root(),
            skip_next: false,
            nesting: 0,
            scan: Vec::new(),
            data: Vec::new(),
            call: Vec::new(),
            dict: Namespace::new(),
        };
        proof {
            assert(r@.scan =~= Seq::<TokenV>::empty());
            assert(r@.data =~= Seq::<ValueV>::empty());
            assert(r@.call =~= Seq::<TokenV>::empty());
        }
        r
    }

    /// Arm the one-shot skip: the next token-application event is discarded.
    /// This is the only control-state effect exposed to builtins.
    pub fn set_skip(&mut self)
        requires
            old(self).wf(),
        ensures
            final(self).wf(),
            final(self)@ == (InterpV { skip_next: true, ..old(self)@ }),
    {
        self.skip_next = true;
    }

    /// Whether a function literal is currently open.
    pub fn in_function(&self) -> (r: bool)
        ensures
            r == (self@.nesting > 0),
    {
        self.nesting > 0
    }

    /// The data stack, for inspection; the last element is the top.
    pub fn data(&self) -> (r: &Vec<Value>)
        ensures
            values_view(r@) == self@.data,
    {
        &self.data
    }

    /// Pop the top of the data stack, or fail with a stack underflow.
    pub fn pop(&mut self) -> (r: Result<Value, Error>)
        requires
            old(self).wf(),
        ensures
            final(self).wf(),
            match r {
                Ok(v) => old(self)@.data.len() > 0 && v@ == old(self)@.data.last() && v@.wf()
                    && final(self)@ == old(self)@.with_data(old(self)@.data.drop_last()),
                Err(e) => old(self)@.data.len() == 0 && e@ == ErrorV::StackUnderflow
                    && final(self)@ == old(self)@,
            },
    {
        match self.data.pop() {
            Some(v) => {
                proof {
                    assert(values_view(self.data@) =~= values_view(old(self).data@).drop_last());
                    assert(v@ == values_view(old(self).data@).last());
                    assert(self@ == old(self)@.with_data(old(self)@.data.drop_last()));
                    assert(v@.wf());
                    assert(self@.wf());
                }
                Ok(v)
            },
            None => Err(Error::StackUnderflow),
        }
    }

    /// Push a value onto the data stack.
    pub fn push(&mut self, value: Value)
        requires
            old(self).wf(),
            value@.wf(),
        ensures
            final(self).wf(),
            final(self)@ == old(self)@.pushed(value@),
    {
        let ghost d0 = self.data@;
        let ghost v0 = value@;
        self.data.push(value);
        proof {
            assert(values_view(self.data@) =~= values_view(d0).push(v0));
            assert(self@ == old(self)@.pushed(v0));
            lemma_wf_pushed(old(self)@, v0);
        }
    }

    /// Bind a native operation at its name in the root namespace, before any
    /// script runs. Names must be unique: binding a name twice is a
    /// programming error of the registering library, and the later binding
    /// simply overwrites the earlier.
    pub(crate) fn register_builtin(&mut self, bf: BuiltinFunction)
        requires
            old(self).wf(),
            bf.spec_name().len() > 0,
        ensures
            final(self).wf(),
            final(self)@ == (InterpV {
                dict: old(self)@.dict.insert(
                    spec_realize(spec_parse_path(bf.spec_name()), Seq::<Seq<char>>::empty()),
                    ValueV::BuiltinFunction(bf.spec_name(), bf.spec_op()),
                ),
                ..old(self)@
            }),
    {
        let name = bf.name();
        let sp = SymbolPath::from_str(name.as_str()).realize(&AbsoluteSymbolPath::root());
        self.dict.insert(sp, Value::BuiltinFunction(bf));
    }

    /// Defer the tokens of a function body onto the continuation stack, in
    /// reverse order, so that popping runs them left to right.
    #[verifier::loop_isolation(false)]
    fn push_call_reversed(&mut self, ts: Vec<Token>)
        requires
            old(self).wf(),
            forall|i: int| 0 <= i < ts@.len() ==> (#[trigger] tokens_view(ts@)[i]).inner_wf(),
        ensures
            final(self).wf(),
            final(self)@ == (InterpV {
                call: old(self)@.call + tokens_view(ts@).reverse(),
                ..old(self)@
            }),
    {
        let ghost c0 = self@.call;
        let ghost tv = tokens_view(ts@);
        let n = ts.len();
        let mut i: usize = 0;
        while i < n
            invariant
                i <= n,
                n == ts@.len(),
                tv == tokens_view(ts@),
                self.wf(),
                tokens_view(self.call@) == c0 + tv.reverse().take(i as int),
                self@ == (InterpV { call: c0 + tv.reverse().take(i as int), ..old(self)@ }),
            decreases n - i,
        {
            let t = ts[n - 1 - i].clone();
            let ghost call_pre = self.call@;
            let ghost cv_pre = tokens_view(call_pre);
            self.call.push(t);
            proof {
                assert(tv.reverse()[i as int] == tv[n - 1 - i]);
                assert(tokens_view(self.call@) =~= cv_pre.push(tv[n - 1 - i]));
                assert(c0 + tv.reverse().take(i + 1) =~= (c0 + tv.reverse().take(i as int)).push(
                    tv.reverse()[i as int],
                ));
                assert forall|j: int| 0 <= j < self@.call.len() implies (#[trigger] self@.call[j]).inner_wf() by {
                    if j < cv_pre.len() {
                        assert(self@.call[j] == cv_pre[j]);
                        assert(cv_pre[j].inner_wf());
                    } else {
                        assert(self@.call[j] == tv[n - 1 - i]);
                    }
                }
            }
            i = i + 1;
        }
        proof {
            assert(tv.reverse().take(n as int) =~= tv.reverse());
        }
    }

    /// Execute a value: run a builtin at once, defer a function's tokens onto
    /// the continuation stack, push any other value as a literal. This is
    /// what an `exec` builtin does to the value it pops, so chains of
    /// deferred builtins run without host recursion.
    #[verifier::loop_isolation(false)]
    pub fn execute_value(&mut self, value: Value) -> (r: Result<(), Error>)
        requires
            old(self).wf(),
            value@.wf(),
        ensures
            final(self).wf(),
            step_matches(final(self)@, r, spec_execute_value(old(self)@, value@)),
    {
        let ghost s0 = old(self)@;
        let ghost v0 = value@;
        let mut cur = value;
        loop
            invariant
                self.wf(),
                cur@.wf(),
                spec_execute_value(s0, v0) == spec_execute_value(self@, cur@),
            decreases self@.data.len(),
        {
            let ghost s_pre = self@;
            let ghost v_pre = cur@;
            match cur {
                Value::BuiltinFunction(bf) => {
                    let op = bf.op();
                    proof {
                        assert(spec_execute_value(s_pre, v_pre) == spec_builtin(s_pre, op));
                    }
                    if op == BuiltinOp::Exec {
                        match self.pop() {
                            Ok(v) => {
                                cur = v;
                            },
                            Err(e) => {
                                return Err(e);
                            },
                        }
                    } else {
                        return self.run_simple(op);
                    }
                },
                Value::Function(ts) => {
                    proof {
                        assert(v_pre is Function);
                    }
                    self.push_call_reversed(ts);
                    return Ok(());
                },
                other => {
                    self.push(other);
                    return Ok(());
                },
            }
        }
    }

    /// Dispatch a native operation other than `exec` to its implementation.
    pub(crate) fn run_simple(&mut self, op: BuiltinOp) -> (r: Result<(), Error>)
        requires
            old(self).wf(),
            op != BuiltinOp::Exec,
        ensures
            final(self).wf(),
            step_matches(final(self)@, r, spec_builtin(old(self)@, op)),
    {
        match op {
            BuiltinOp::Drop => builtins::stack::f_drop(self),
            BuiltinOp::Dup => builtins::stack::f_dup(self),
            BuiltinOp::Over => builtins::stack::f_over(self),
            BuiltinOp::Swap => builtins::stack::f_swap(self),
            BuiltinOp::Rot => builtins::stack::f_rot(self),
            BuiltinOp::Add => builtins::f_add(self),
            BuiltinOp::Mul => builtins::f_multiply(self),
            BuiltinOp::Eq => builtins::compare::f_eq(self),
            BuiltinOp::Lt => builtins::compare::f_lt(self),
            BuiltinOp::True => builtins::boolean::f_true(self),
            BuiltinOp::False => builtins::boolean::f_false(self),
            BuiltinOp::Not => builtins::boolean::f_not(self),
            BuiltinOp::And => builtins::boolean::f_and(self),
            BuiltinOp::Or => builtins::boolean::f_or(self),
            BuiltinOp::Exec => unreached(),
            BuiltinOp::If => builtins::control_flow::f_if(self),
            BuiltinOp::Assert => builtins::debug::f_assert(self),
            BuiltinOp::DbgShow => builtins::debug::f_dbgshow(self),
        }
    }

    /// Bind a popped value at a name realized against the cursor.
    fn pop_assign_to(&mut self, name: &str) -> (r: Result<(), Error>)
        requires
            old(self).wf(),
            name@.len() > 0,
            old(self)@.nesting == 0,
            !old(self)@.skip_next,
        ensures
            final(self).wf(),
            step_matches(
                final(self)@,
                r,
                spec_execute_token(old(self)@, TokenV::AssignIdentifier(name@)),
            ),
    {
        let value = match self.pop() {
            Ok(v) => v,
            Err(e) => {
                return Err(e);
            },
        };
        let path = SymbolPath::from_str(name).realize(&self.current_namespace);
        self.dict.insert(path, value);
        proof {
            assert forall|k: Seq<Seq<char>>| self@.dict.contains_key(k) implies (
            #[trigger] self@.dict[k]).wf() by {
                if k != path@ {
                    assert(old(self)@.dict.contains_key(k));
                }
            }
        }
        Ok(())
    }

    /// Repoint the namespace cursor: a pure cursor move, never a binding.
    fn set_namespace(&mut self, name: &str) -> (r: Result<(), Error>)
        requires
            old(self).wf(),
            name@.len() > 0,
            old(self)@.nesting == 0,
            !old(self)@.skip_next,
        ensures
            final(self).wf(),
            step_matches(
                final(self)@,
                r,
                spec_execute_token(old(self)@, TokenV::SetNamespace(name@)),
            ),
    {
        let path = SymbolPath::from_str(name).realize(&self.current_namespace);
        self.current_namespace = path;
        proof {
            assert(self@.scan == old(self)@.scan);
            assert(self@.call == old(self)@.call);
            assert(self@.data == old(self)@.data);
            assert(self@.dict == old(self)@.dict);
        }
        Ok(())
    }

    /// Materialize the scan buffer as a function value on the data stack and
    /// empty it. Called exactly when a function literal's last close brace
    /// has brought the nesting back to zero, the one moment the scan buffer
    /// may be non-empty at depth zero.
    fn push_current_function(&mut self)
        requires
            forall|i: int|
                0 <= i < old(self)@.scan.len() ==> (#[trigger] old(self)@.scan[i]).inner_wf(),
        ensures
            final(self)@ == (InterpV {
                scan: Seq::<TokenV>::empty(),
                data: old(self)@.data.push(ValueV::Function(old(self)@.scan)),
                ..old(self)@
            }),
            final(self).dict == old(self).dict,
    {
        let captured = self.scan.clone();
        proof {
            assert(tokens_view(captured@) =~= old(self)@.scan);
        }
        let ghost d0 = self.data@;
        self.data.push(Value::Function(captured));
        self.scan.clear();
        proof {
            assert(values_view(self.data@) =~= values_view(d0).push(
                ValueV::Function(old(self)@.scan),
            ));
            assert(tokens_view(self.scan@) =~= Seq::<TokenV>::empty());
        }
    }

    /// Dispatch any native operation to its implementation.
    pub(crate) fn run_op(&mut self, op: BuiltinOp) -> (r: Result<(), Error>)
        requires
            old(self).wf(),
        ensures
            final(self).wf(),
            step_matches(final(self)@, r, spec_builtin(old(self)@, op)),
    {
        if op == BuiltinOp::Exec {
            builtins::control_flow::f_exec(self)
        } else {
            self.run_simple(op)
        }
    }

    /// Execute an identifier: push a numeric literal as an integer, or
    /// resolve the name — directly when absolute, with ancestor fallback when
    /// relative — and execute the bound value.
    #[verifier::loop_isolation(false)]
    fn execute_ident(&mut self, ident: &str) -> (r: Result<(), Error>)
        requires
            old(self).wf(),
            ident@.len() > 0,
        ensures
            final(self).wf(),
            step_matches(final(self)@, r, spec_execute_ident(old(self)@, ident@)),
    {
        match parse_u64(ident) {
            Some(x) => {
                self.push(Value::Integer(x));
                Ok(())
            },
            None => {
                let sp = SymbolPath::from_str(ident);
                match sp {
                    SymbolPath::Absolute(p) => {
                        match self.dict.resolve(&p) {
                            Some(val) => {
                                proof {
                                    assert(val@.wf());
                                }
                                self.execute_value(val)
                            },
                            None => Err(Error::NameNotDefined(SymbolPath::Absolute(p))),
                        }
                    },
                    SymbolPath::Relative(rsp) => {
                        let rp = self.current_namespace.join(&rsp);
                        match self.dict.resolve(&rp) {
                            Some(val) => {
                                proof {
                                    assert(val@.wf());
                                }
                                self.execute_value(val)
                            },
                            None => {
                                let mut cursor = self.current_namespace.clone();
                                loop
                                    invariant
                                        self.wf(),
                                        spec_resolve_fallback(
                                            self@.dict,
                                            old(self)@.current_namespace,
                                            rsp@,
                                        ) == spec_resolve_fallback(self@.dict, cursor@, rsp@),
                                        !self@.dict.contains_key(cursor@ + rsp@),
                                        self@ == old(self)@,
                                    decreases cursor@.len(),
                                {
                                    match cursor.parent() {
                                        None => {
                                            return Err(
                                                Error::NameNotDefined(SymbolPath::Relative(rsp)),
                                            );
                                        },
                                        Some(p) => {
                                            let cp = p.join(&rsp);
                                            match self.dict.resolve(&cp) {
                                                Some(val) => {
                                                    proof {
                                                        assert(val@.wf());
                                                        assert(spec_resolve_fallback(
                                                            self@.dict,
                                                            cursor@,
                                                            rsp@,
                                                        ) == spec_resolve_fallback(
                                                            self@.dict,
                                                            p@,
                                                            rsp@,
                                                        ));
                                                        assert(spec_resolve_fallback(
                                                            self@.dict,
                                                            p@,
                                                            rsp@,
                                                        ) == Some(self@.dict[p@ + rsp@]));
                                                        assert(val@ == self@.dict[p@ + rsp@]);
                                                    }
                                                    return self.execute_value(val);
                                                },
                                                None => {
                                                    cursor = p;
                                                },
                                            }
                                        },
                                    }
                                }
                            },
                        }
                    },
                }
            },
        }
    }

    /// Execute one token against the current control state; see
    /// `spec_execute_token` for what each state does with each token.
    fn execute_token(&mut self, token: Token) -> (r: Result<(), Error>)
        requires
            old(self).wf(),
            token@.wf(),
            token@ is FunctionStart ==> old(self)@.nesting < usize::MAX,
        ensures
            final(self).wf(),
            step_matches(final(self)@, r, spec_execute_token(old(self)@, token@)),
    {
        if self.nesting > 0 {
            match token {
                Token::FunctionStart => {
                    self.nesting = self.nesting + 1;
                    Ok(())
                },
                Token::FunctionEnd => {
                    self.nesting = self.nesting - 1;
                    if self.nesting == 0 {
                        if self.skip_next {
                            self.skip_next = false;
                            self.scan.clear();
                            proof {
                                assert(tokens_view(self.scan@) =~= Seq::<TokenV>::empty());
                            }
                        } else {
                            self.push_current_function();
                        }
                    }
                    Ok(())
                },
                t => {
                    let ghost sc0 = tokens_view(self.scan@);
                    let ghost tv = t@;
                    self.scan.push(t);
                    proof {
                        assert(tokens_view(self.scan@) =~= sc0.push(tv));
                        assert forall|j: int|
                            0 <= j < self@.scan.len() implies (#[trigger] self@.scan[j]).inner_wf() by {
                            if j < sc0.len() {
                                assert(self@.scan[j] == sc0[j]);
                                assert(old(self)@.scan[j].inner_wf());
                            } else {
                                assert(self@.scan[j] == tv);
                            }
                        }
                    }
                    Ok(())
                },
            }
        } else if self.skip_next {
            match token {
                Token::FunctionStart => {
                    self.nesting = 1;
                    Ok(())
                },
                Token::FunctionEnd => Err(Error::FunctionEndOutsideFunction),
                _ => {
                    self.skip_next = false;
                    Ok(())
                },
            }
        } else {
            match token {
                Token::FunctionStart => {
                    self.nesting = 1;
                    Ok(())
                },
                Token::FunctionEnd => Err(Error::FunctionEndOutsideFunction),
                Token::AssignIdentifier(name) => self.pop_assign_to(name.as_str()),
                Token::SetNamespace(name) => self.set_namespace(name.as_str()),
                Token::Identifier(name) => self.execute_ident(name.as_str()),
            }
        }
    }

    /// Whether the continuation stack is drained: ready for the next source
    /// token.
    pub fn idle(&mut self) -> (r: bool)
        ensures
            r == (old(self)@.call.len() == 0),
            *final(self) == *old(self),
    {
        self.call.is_empty()
    }

    /// Pop and execute one pending continuation token, if any.
    pub fn step(&mut self) -> (r: Result<(), Error>)
        requires
            old(self).wf(),
        ensures
            final(self).wf(),
            step_matches(final(self)@, r, spec_step(old(self)@)),
    {
        match self.call.pop() {
            Some(token) => {
                proof {
                    assert(tokens_view(self.call@) =~= tokens_view(old(self).call@).drop_last());
                    assert(token@ == old(self)@.call.last());
                    assert(old(self)@.call.last().inner_wf());
                }
                self.execute_token(token)
            },
            None => Ok(()),
        }
    }

    /// The driver loop: scan one token from the source, execute it, then
    /// drain the continuation stack completely — depth-first completion of
    /// any call the token made — before scanning the next. The engine is
    /// proved to follow `spec_config_step` exactly: on success, a finite run
    /// of driver steps reaches a clean halt whose state is the final state;
    /// on failure, such a run reaches the configuration at which the driver
    /// fails with exactly the returned error, partial effects included. The
    /// source being exhausted inside an unfinished function literal is
    /// incomplete input.
    ///
    /// Call depth is bounded by the continuation stack, not the host stack,
    /// and the engine imposes explicit ceilings in place of unbounded
    /// growth: on how many continuation steps one source token may set off,
    /// and on how deep function literals may nest. A script that exceeds
    /// either — which no terminating script remotely approaches — fails with
    /// the fatal `ExecutionLimitExceeded`, the engine left at the state it
    /// had reached.
    #[verifier::loop_isolation(false)]
    #[verifier::rlimit(100)]
    pub fn execute(&mut self, input: &str, _filepath: Option<&str>) -> (r: Result<(), Error>)
        requires
            old(self).wf(),
        ensures
            final(self).wf(),
            execute_matches(input@, old(self)@, final(self)@, r),
    {
        let ghost src = input@;
        let ghost c0 = ConfigV { state: old(self)@, pos: 0 };
        let n = input.unicode_len();
        let mut pos: usize = 0;
        let mut steps_left: u64 = u64::MAX;
        let ghost mut tr: Seq<ConfigV> = seq![c0];
        proof {
            assert(is_trace(src, tr, c0, c0));
        }
        loop
            invariant
                self.wf(),
                pos <= n,
                is_trace(src, tr, c0, ConfigV { state: self@, pos: pos as int }),
                tr.len() > u64::MAX - steps_left,
            decreases n - pos, steps_left,
        {
            let ghost c_pre = ConfigV { state: self@, pos: pos as int };
            if self.call.len() > 0 {
                // Drain one pending continuation token.
                if steps_left == 0 {
                    proof {
                        assert(tr.len() > u64::MAX);
                        assert(spec_limit_hit(src, tr, c_pre));
                    }
                    return Err(Error::ExecutionLimitExceeded);
                }
                steps_left = steps_left - 1;
                match self.step() {
                    Ok(()) => {
                        proof {
                            reveal(spec_config_step);
                            let c_next = ConfigV { state: self@, pos: pos as int };
                            assert(spec_config_step(src, c_pre) == (
                                c_next,
                                DriverOutcome::Progress,
                            ));
                            lemma_trace_extend(src, tr, c0, c_pre, c_next);
                            tr = tr.push(c_next);
                        }
                    },
                    Err(e) => {
                        proof {
                            reveal(spec_config_step);
                            assert(spec_config_step(src, c_pre).1 == DriverOutcome::Failed(e@));
                            assert(spec_config_step(src, c_pre).0.state == self@);
                            assert(reaches(src, c0, c_pre));
                        }
                        return Err(e);
                    },
                }
            } else {
                match scan_token(input, pos) {
                    Err(e) => {
                        proof {
                            reveal(spec_config_step);
                            assert(spec_config_step(src, c_pre).1 == DriverOutcome::Failed(
                                ErrorV::InvalidSyntax(e),
                            ));
                            assert(reaches(src, c0, c_pre));
                        }
                        return Err(Error::InvalidSyntax(e));
                    },
                    Ok(None) => {
                        if self.in_function() {
                            proof {
                                reveal(spec_config_step);
                                assert(spec_config_step(src, c_pre).1 == DriverOutcome::Failed(
                                    ErrorV::InvalidSyntax(SyntaxError::UnexpectedEndOfInput),
                                ));
                                assert(reaches(src, c0, c_pre));
                            }
                            return Err(Error::InvalidSyntax(SyntaxError::UnexpectedEndOfInput));
                        }
                        proof {
                            reveal(spec_config_step);
                            assert(spec_config_step(src, c_pre).1 == DriverOutcome::Halted);
                            assert(reaches(src, c0, c_pre));
                        }
                        return Ok(());
                    },
                    Ok(Some((t, q))) => {
                        if matches!(t, Token::FunctionStart) && self.nesting == usize::MAX {
                            proof {
                                assert(c_pre.state.nesting >= usize::MAX);
                                assert(c_pre.state.call.len() == 0);
                                assert(spec_limit_hit(src, tr, c_pre));
                            }
                            return Err(Error::ExecutionLimitExceeded);
                        }
                        let r_tok = self.execute_token(t);
                        match r_tok {
                            Ok(()) => {
                                proof {
                                    reveal(spec_config_step);
                                    let c_next = ConfigV { state: self@, pos: q as int };
                                    assert(spec_config_step(src, c_pre) == (
                                        c_next,
                                        DriverOutcome::Progress,
                                    ));
                                    lemma_trace_extend(src, tr, c0, c_pre, c_next);
                                    tr = tr.push(c_next);
                                }
                                pos = q;
                            },
                            Err(e) => {
                                proof {
                                    reveal(spec_config_step);
                                    assert(spec_config_step(src, c_pre).1 == DriverOutcome::Failed(
                                        e@,
                                    ));
                                    assert(spec_config_step(src, c_pre).0.state == self@);
                                    assert(reaches(src, c0, c_pre));
                                }
                                return Err(e);
                            },
                        }
                        steps_left = u64::MAX;
                    },
                }
            }
        }
    }

    /// This interpreter with every builtin of the library bound into the
    /// root namespace: the state a session starts scripts from.
    pub fn with_builtins(self) -> (r: Self)
        requires
            self.wf(),
        ensures
            r.wf(),
            r@ == (InterpV { dict: builtins::spec_all_builtins(self@.dict), ..self@ }),
    {
        let mut interp = self;
        builtins::register_all(&mut interp);
        interp
    }
}

/// Evidence that an execution ceiling was genuinely reached at the end of
/// the run `tr`: the run already holds more driver steps than the per-token
/// budget, or its last configuration stands, with nothing pending, before an
/// open brace at the literal-depth ceiling.
pub open spec fn spec_limit_hit(src: Seq<char>, tr: Seq<ConfigV>, c: ConfigV) -> bool {
    ||| tr.len() > u64::MAX
    ||| (c.state.nesting >= usize::MAX && c.state.call.len() == 0 && (spec_scan_token(src, c.pos)
        matches Ok(Some((t, q))) && t is FunctionStart))
}

/// What `execute` promises: a finite run of driver steps from the starting
/// configuration reaches a clean halt, or the configuration at which the
/// driver fails with exactly the returned error; either way the engine is
/// left in that run's final state. The one other outcome is the fatal
/// ceiling error, and it may fire only with evidence that a ceiling was
/// reached: never on a run that halts or fails within the budgets. Since
/// the driver relation is deterministic (`lemma_run_deterministic`), the
/// run, and with it the result and the final state, is pinned by the
/// starting state and the source text.
pub open spec fn execute_matches(
    src: Seq<char>,
    s0: InterpV,
    s_new: InterpV,
    r: Result<(), Error>,
) -> bool {
    let c0 = ConfigV { state: s0, pos: 0 };
    match r {
        Ok(()) => exists|c: ConfigV|
            reaches(src, c0, c) && (#[trigger] spec_config_step(src, c)).1
                == DriverOutcome::Halted && s_new == spec_config_step(src, c).0.state,
        Err(e) => (exists|c: ConfigV|
            reaches(src, c0, c) && (#[trigger] spec_config_step(src, c)).1
                == DriverOutcome::Failed(e@) && s_new == spec_config_step(src, c).0.state) || (e@
            == ErrorV::ExecutionLimitExceeded && exists|tr: Seq<ConfigV>, c: ConfigV|
            #[trigger] is_trace(src, tr, c0, c) && s_new == c.state && spec_limit_hit(src, tr, c)),
    }
}

/// Ancestor fallback in identifier execution (law): a non-numeric relative
/// name that is bound at the root and shadowed at no ancestor of the cursor
/// executes the root binding — and when that binding is a plain value, the
/// whole effect is to push it.
pub proof fn lemma_execute_ident_root_fallback(s: InterpV, name: Seq<char>, rel: Seq<Seq<char>>)
    requires
        spec_parse_u64(name) is None,
        spec_parse_path(name) == SymbolPathV::Relative(rel),
        s.dict.contains_key(Seq::<Seq<char>>::empty() + rel),
        forall|n: int|
            0 < n <= s.current_namespace.len() ==> !s.dict.contains_key(
                #[trigger] s.current_namespace.take(n) + rel,
            ),
    ensures
        spec_execute_ident(s, name) == spec_execute_value(
            s,
            s.dict[Seq::<Seq<char>>::empty() + rel],
        ),
        ({
            let v = s.dict[Seq::<Seq<char>>::empty() + rel];
            !(v is Function) && !(v is BuiltinFunction) ==> spec_execute_ident(s, name) == (
                s.pushed(v),
                Ok::<(), ErrorV>(()),
            )
        }),
{
    crate::namespace::lemma_ancestor_fallback(s.dict, s.current_namespace, rel);
}

/// The armed one-shot skip (law): at depth zero it passes over exactly one
/// unit. An opening brace makes the upcoming function literal that unit,
/// keeping the skip armed; any other single token is discarded with no
/// effect on the data stack, the namespace or the cursor, and the skip is
/// cleared.
pub proof fn lemma_skip_one_unit(s: InterpV, t: TokenV)
    requires
        s.nesting == 0,
        s.skip_next,
    ensures
        t is FunctionStart ==> spec_execute_token(s, t) == ((InterpV { nesting: 1, ..s }), Ok::<
            (),
            ErrorV,
        >(())),
        !(t is FunctionStart) && !(t is FunctionEnd) ==> spec_execute_token(s, t) == ((InterpV {
            skip_next: false,
            ..s
        }), Ok::<(), ErrorV>(())),
{
}

/// Closing a skipped literal (law): when the last close brace returns the
/// depth to zero with the skip armed, the collected tokens are discarded —
/// no function value is pushed, the data stack is untouched — and the skip
/// is cleared there instead.
pub proof fn lemma_skip_discards_literal(s: InterpV)
    requires
        s.nesting == 1,
        s.skip_next,
    ensures
        spec_execute_token(s, TokenV::FunctionEnd) == ((InterpV {
            nesting: 0,
            scan: Seq::<TokenV>::empty(),
            skip_next: false,
            ..s
        }), Ok::<(), ErrorV>(())),
{
}

/// Whether `ident` is one or more decimal digits denoting a value that fits
/// in 64 bits, and that value.
fn parse_u64(ident: &str) -> (r: Option<u64>)
    ensures
        r == spec_parse_u64(ident@),
{
    let ghost s = ident@;
    let n = ident.unicode_len();
    if n == 0 {
        return None;
    }
    let mut acc: u64 = 0;
    let mut i: usize = 0;
    while i < n
        invariant
            i <= n,
            n == s.len(),
            s == ident@,
            forall|j: int| 0 <= j < i ==> spec_is_digit(#[trigger] s[j]),
            acc == spec_digits_val(s.take(i as int)),
        decreases n - i,
    {
        let c = ident.get_char(i);
        if !(c >= '0' && c <= '9') {
            return None;
        }
        let d: u64 = ((c as u32) - ('0' as u32)) as u64;
        let overflowed: bool = match u64::checked_mul(acc, 10) {
            Some(m) => {
                match u64::checked_add(m, d) {
                    Some(v) => {
                        acc = v;
                        false
                    },
                    None => true,
                }
            },
            None => true,
        };
        proof {
            assert(s.take(i + 1).drop_last() =~= s.take(i as int));
            assert(s.take(i + 1).last() == s[i as int]);
            assert(spec_digits_val(s.take(i + 1)) == spec_digits_val(s.take(i as int)) * 10 + (
            s[i as int] as int - '0' as int));
        }
        if overflowed {
            proof {
                if forall|j: int| 0 <= j < s.len() ==> spec_is_digit(#[trigger] s[j]) {
                    lemma_digits_val_prefix(s, i + 1);
                    assert(spec_digits_val(s) > u64::MAX);
                }
            }
            return None;
        }
        i = i + 1;
    }
    proof {
        assert(s.take(n as int) =~= s);
    }
    Some(acc)
}

/// A digit string's value is non-negative.
proof fn lemma_digits_val_nonneg(s: Seq<char>)
    requires
        forall|j: int| 0 <= j < s.len() ==> spec_is_digit(#[trigger] s[j]),
    ensures
        spec_digits_val(s) >= 0,
    decreases s.len(),
{
    if s.len() > 0 {
        assert(forall|j: int|
            0 <= j < s.drop_last().len() ==> #[trigger] s.drop_last()[j] == s[j]);
        lemma_digits_val_nonneg(s.drop_last());
    }
}

/// A digit string's value is at least the value of any of its prefixes.
proof fn lemma_digits_val_prefix(s: Seq<char>, i: int)
    requires
        forall|j: int| 0 <= j < s.len() ==> spec_is_digit(#[trigger] s[j]),
        0 <= i <= s.len(),
    ensures
        spec_digits_val(s.take(i)) <= spec_digits_val(s),
    decreases s.len() - i,
{
    if i == s.len() {
        assert(s.take(i) =~= s);
    } else {
        assert(s.take(i + 1).drop_last() =~= s.take(i));
        assert(s.take(i + 1).last() == s[i]);
        assert(forall|j: int| 0 <= j < i ==> #[trigger] s.take(i)[j] == s[j]);
        lemma_digits_val_nonneg(s.take(i));
        assert(spec_digits_val(s.take(i + 1)) == spec_digits_val(s.take(i)) * 10 + (s[i] as int
            - '0' as int));
        assert(spec_digits_val(s.take(i)) <= spec_digits_val(s.take(i + 1)));
        lemma_digits_val_prefix(s, i + 1);
    }
}

} // verus!
