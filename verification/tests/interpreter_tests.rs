use hepta::error::{Error, SyntaxError};
use hepta::interpreter::Interpreter;
use hepta::value::{Value, ValueType, value_eq};

fn run(src: &str) -> Interpreter {
    let mut interp = Interpreter::new().with_builtins();
    interp.execute(src, None).unwrap();
    interp
}

fn run_err(src: &str) -> (Interpreter, Error) {
    let mut interp = Interpreter::new().with_builtins();
    let e = interp.execute(src, None).unwrap_err();
    (interp, e)
}

fn stack_ints(interp: &Interpreter) -> Vec<u64> {
    interp
        .data()
        .iter()
        .map(|v| match v {
            Value::Integer(x) => *x,
            other => panic!("not an integer: {:?}", other),
        })
        .collect()
}

#[test]
fn numeral_pushes_integer() {
    let interp = run("42");
    assert_eq!(stack_ints(&interp), vec![42]);
}

#[test]
fn add_builtin_sums_two_integers() {
    let interp = run("3 4 add");
    assert_eq!(stack_ints(&interp), vec![7]);
}

#[test]
fn add_overflow_fails_with_both_operands_consumed() {
    let (interp, e) = run_err("18446744073709551615 1 add");
    assert!(matches!(e, Error::IntegerOverflow));
    assert!(interp.data().is_empty());
}

#[test]
fn mul_builtin_and_overflow() {
    let interp = run("6 7 mul");
    assert_eq!(stack_ints(&interp), vec![42]);
    let (interp2, e) = run_err("4294967296 4294967296 mul");
    assert!(matches!(e, Error::IntegerOverflow));
    assert!(interp2.data().is_empty());
}

#[test]
fn numeral_too_large_for_64_bits_is_a_name() {
    let (_, e) = run_err("18446744073709551616");
    assert!(matches!(e, Error::NameNotDefined(_)));
}

#[test]
fn conditional_skips_function_literal_when_false() {
    let interp = run("false if { 1 } 2");
    assert_eq!(stack_ints(&interp), vec![2]);
}

#[test]
fn conditional_after_captured_literal_sees_a_function_value() {
    // The conditional consumes its boolean before its guarded unit is
    // scanned; written after the literal, it pops the function value instead
    // of a boolean and reports its kind.
    let (_, e) = run_err("false { 1 } if 2");
    match e {
        Error::WrongArgumentType(actual, allowed) => {
            assert_eq!(actual, ValueType::Function);
            assert_eq!(allowed, vec![ValueType::Boolean]);
        },
        other => panic!("unexpected error: {:?}", other),
    }
}

#[test]
fn conditional_keeps_function_literal_when_true() {
    let interp = run("true if { 1 } exec 2");
    assert_eq!(stack_ints(&interp), vec![1, 2]);
}

#[test]
fn armed_skip_discards_one_plain_token() {
    let interp = run("false if 7 8");
    assert_eq!(stack_ints(&interp), vec![8]);
}

#[test]
fn nested_call_completes_before_scanning_resumes() {
    let mut interp = Interpreter::new().with_builtins();
    interp.execute("{ dup mul } /square", None).unwrap();
    interp.execute("3 square 100", None).unwrap();
    assert_eq!(stack_ints(&interp), vec![9, 100]);
    assert!(!interp.in_function());
}

#[test]
fn function_calling_function_completes_depth_first() {
    let mut interp = Interpreter::new().with_builtins();
    interp.execute("{ dup mul } /square", None).unwrap();
    interp.execute("{ square square } /fourth", None).unwrap();
    interp.execute("2 fourth 5", None).unwrap();
    assert_eq!(stack_ints(&interp), vec![16, 5]);
}

#[test]
fn literal_capture_returns_nesting_to_zero() {
    let mut interp = Interpreter::new().with_builtins();
    interp.execute("{ 1 2 add }", None).unwrap();
    assert!(!interp.in_function());
    assert_eq!(interp.data().len(), 1);
    assert!(matches!(interp.data()[0], Value::Function(_)));
}

#[test]
fn unfinished_literal_is_incomplete_input() {
    let (_, e) = run_err("{ 1 2");
    assert!(matches!(e, Error::InvalidSyntax(SyntaxError::UnexpectedEndOfInput)));
}

#[test]
fn scanner_error_surfaces_as_invalid_syntax() {
    let (_, e) = run_err("1 /");
    assert!(matches!(e, Error::InvalidSyntax(SyntaxError::AssignToEmpty)));
}

#[test]
fn unmatched_close_brace_is_fatal() {
    let (_, e) = run_err("}");
    assert!(matches!(e, Error::FunctionEndOutsideFunction));
}

#[test]
fn assignment_binds_and_identifier_resolves() {
    let interp = run("5 /x x x add");
    assert_eq!(stack_ints(&interp), vec![10]);
}

#[test]
fn assignment_on_empty_stack_underflows() {
    let (_, e) = run_err("/x");
    assert!(matches!(e, Error::StackUnderflow));
}

#[test]
fn undefined_name_reports_name_not_found() {
    let (_, e) = run_err("nosuch");
    assert!(matches!(e, Error::NameNotDefined(_)));
}

#[test]
fn namespace_cursor_scopes_bindings() {
    let interp = run("#ns 5 /x x .ns.x add");
    assert_eq!(stack_ints(&interp), vec![10]);
}

#[test]
fn ancestor_fallback_reaches_root_binding() {
    let interp = run("42 /foo #a.b foo");
    assert_eq!(stack_ints(&interp), vec![42]);
}

#[test]
fn nearer_binding_shadows_ancestor() {
    let interp = run("7 /foo #a 8 /foo foo");
    assert_eq!(stack_ints(&interp), vec![8]);
}

#[test]
fn absolute_names_get_no_fallback() {
    let (_, e) = run_err("42 /foo #a.b .a.foo");
    assert!(matches!(e, Error::NameNotDefined(_)));
}

#[test]
fn dup_swap_drop_over_rot() {
    assert_eq!(stack_ints(&run("1 dup")), vec![1, 1]);
    assert_eq!(stack_ints(&run("1 2 swap")), vec![2, 1]);
    assert_eq!(stack_ints(&run("1 2 drop")), vec![1]);
    assert_eq!(stack_ints(&run("1 2 over")), vec![1, 2, 1]);
    assert_eq!(stack_ints(&run("1 2 3 rot")), vec![2, 3, 1]);
}

#[test]
fn stack_shuffle_underflow_consumes_what_was_popped() {
    let (interp, e) = run_err("1 swap");
    assert!(matches!(e, Error::StackUnderflow));
    assert!(interp.data().is_empty());
}

#[test]
fn eq_compares_values_by_content() {
    let interp = run("1 1 eq 1 2 eq 1 true eq");
    let data = interp.data();
    assert!(matches!(data[0], Value::Boolean(true)));
    assert!(matches!(data[1], Value::Boolean(false)));
    assert!(matches!(data[2], Value::Boolean(false)));
}

#[test]
fn eq_compares_captured_functions_by_their_tokens() {
    let interp = run("{ 1 2 } { 1 2 } eq { 1 } { 2 } eq");
    let data = interp.data();
    assert!(matches!(data[0], Value::Boolean(true)));
    assert!(matches!(data[1], Value::Boolean(false)));
}

#[test]
fn lt_compares_in_stack_order() {
    let interp = run("3 4 lt 4 3 lt");
    let data = interp.data();
    assert!(matches!(data[0], Value::Boolean(true)));
    assert!(matches!(data[1], Value::Boolean(false)));
}

#[test]
fn boolean_builtins() {
    let interp = run("true not true false and true false or");
    let data = interp.data();
    assert!(matches!(data[0], Value::Boolean(false)));
    assert!(matches!(data[1], Value::Boolean(false)));
    assert!(matches!(data[2], Value::Boolean(true)));
}

#[test]
fn boolean_builtin_type_error_reports_lower_operand_first() {
    let (_, e) = run_err("1 true and");
    match e {
        Error::WrongArgumentType(actual, allowed) => {
            assert_eq!(actual, ValueType::Integer);
            assert_eq!(allowed, vec![ValueType::Boolean]);
        },
        other => panic!("unexpected error: {:?}", other),
    }
}

#[test]
fn assert_builtin_passes_and_fails() {
    let interp = run("true assert 1");
    assert_eq!(stack_ints(&interp), vec![1]);
    let (_, e) = run_err("false assert");
    assert!(matches!(e, Error::AssertionFailed));
    let (_, e2) = run_err("7 assert");
    assert!(matches!(e2, Error::WrongArgumentType(ValueType::Integer, _)));
}

#[test]
fn exec_runs_a_function_value_from_the_stack() {
    let interp = run("{ 2 3 add } exec");
    assert_eq!(stack_ints(&interp), vec![5]);
}

#[test]
fn exec_pushes_a_plain_value_back() {
    let interp = run("5 exec");
    assert_eq!(stack_ints(&interp), vec![5]);
}

#[test]
fn dbgshow_leaves_the_stack_unchanged() {
    let interp = run("1 2 dbgshow");
    assert_eq!(stack_ints(&interp), vec![1, 2]);
}

#[test]
fn wrong_argument_type_on_add_reports_topmost_first() {
    let (_, e) = run_err("1 true add");
    match e {
        Error::WrongArgumentType(actual, allowed) => {
            assert_eq!(actual, ValueType::Boolean);
            assert_eq!(allowed, vec![ValueType::Integer]);
        },
        other => panic!("unexpected error: {:?}", other),
    }
}

#[test]
fn comments_are_transparent_to_execution() {
    let interp = run("1 (one) 2 (two) add");
    assert_eq!(stack_ints(&interp), vec![3]);
}

#[test]
fn rebinding_a_name_overwrites_it() {
    let interp = run("1 /x 2 /x x");
    assert_eq!(stack_ints(&interp), vec![2]);
}

#[test]
fn builtins_can_be_shadowed_by_user_bindings() {
    let interp = run("{ drop drop 99 } /add 3 4 add");
    assert_eq!(stack_ints(&interp), vec![99]);
}

#[test]
fn push_pop_and_idle_api() {
    let mut interp = Interpreter::new();
    assert!(interp.idle());
    interp.push(Value::Integer(9));
    let v = interp.pop().unwrap();
    assert!(value_eq(&v, &Value::Integer(9)));
    assert!(matches!(interp.pop(), Err(Error::StackUnderflow)));
    assert!(interp.step().is_ok());
}

#[test]
fn value_equality_treats_kinds_apart() {
    assert!(value_eq(&Value::Boolean(true), &Value::Boolean(true)));
    assert!(!value_eq(&Value::Boolean(true), &Value::Integer(1)));
    assert!(!value_eq(&Value::Index(1), &Value::Integer(1)));
}

#[test]
fn value_type_tags() {
    assert_eq!(Value::Boolean(true).type_(), ValueType::Boolean);
    assert_eq!(Value::Integer(0).type_(), ValueType::Integer);
    assert_eq!(Value::Function(Vec::new()).type_(), ValueType::Function);
}

#[test]
fn numeric_literals_are_never_shadowed() {
    // Binding a name spelled like a numeral is legal but unreachable: a
    // numeral pushes itself and is never looked up.
    let interp = run("1 /7 7");
    assert_eq!(stack_ints(&interp), vec![7]);
}

#[test]
fn independent_sessions_do_not_share_state() {
    let mut a = Interpreter::new().with_builtins();
    let mut b = Interpreter::new().with_builtins();
    a.execute("1 /x", None).unwrap();
    assert!(matches!(b.execute("x", None), Err(Error::NameNotDefined(_))));
    assert!(a.execute("x", None).is_ok());
}

#[test]
fn empty_source_executes_cleanly() {
    let interp = run("   (just a comment)  ");
    assert!(interp.data().is_empty());
}
