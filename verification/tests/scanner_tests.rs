use hepta::error::SyntaxError;
use hepta::scanner::{scan_token, Token};

fn scan_all(input: &str) -> Result<Vec<Token>, SyntaxError> {
    let mut tokens = Vec::new();
    let mut pos = 0;
    loop {
        match scan_token(input, pos)? {
            Some((t, q)) => {
                tokens.push(t);
                pos = q;
            },
            None => return Ok(tokens),
        }
    }
}

fn ident(name: &str) -> Token {
    Token::Identifier(name.to_string())
}

#[test]
fn comment_transparency() {
    let tokens = scan_all("1 (a comment) 2").unwrap();
    assert_eq!(tokens, vec![ident("1"), ident("2")]);
}

#[test]
fn nested_comment_fully_consumed() {
    let tokens = scan_all("x (a (nested (deep)) comment) y").unwrap();
    assert_eq!(tokens, vec![ident("x"), ident("y")]);
}

#[test]
fn comment_only_input_yields_no_token() {
    assert_eq!(scan_all("(nothing here)"), Ok(vec![]));
}

#[test]
fn brace_round_trip() {
    let tokens = scan_all("{ 1 2 add }").unwrap();
    assert_eq!(
        tokens,
        vec![
            Token::FunctionStart,
            ident("1"),
            ident("2"),
            ident("add"),
            Token::FunctionEnd,
        ]
    );
}

#[test]
fn braces_terminate_names_without_being_consumed() {
    let tokens = scan_all("{a}").unwrap();
    assert_eq!(tokens, vec![Token::FunctionStart, ident("a"), Token::FunctionEnd]);
}

#[test]
fn assign_and_namespace_tokens() {
    let tokens = scan_all("/name #ns.sub rest").unwrap();
    assert_eq!(
        tokens,
        vec![
            Token::AssignIdentifier("name".to_string()),
            Token::SetNamespace("ns.sub".to_string()),
            ident("rest"),
        ]
    );
}

#[test]
fn assign_marker_at_end_of_input_is_empty_name_error() {
    assert_eq!(scan_token("/", 0), Err(SyntaxError::AssignToEmpty));
}

#[test]
fn assign_marker_before_terminator_is_empty_name_error() {
    assert_eq!(scan_all("/ x"), Err(SyntaxError::AssignToEmpty));
    assert_eq!(scan_all("/{"), Err(SyntaxError::AssignToEmpty));
}

#[test]
fn namespace_marker_with_no_name_is_empty_name_error() {
    assert_eq!(scan_all("#"), Err(SyntaxError::AssignToEmpty));
    assert_eq!(scan_all("# x"), Err(SyntaxError::AssignToEmpty));
}

#[test]
fn unterminated_comment_is_incomplete_input() {
    assert_eq!(scan_all("1 (never closed"), Err(SyntaxError::UnexpectedEndOfInput));
}

#[test]
fn whitespace_only_input_ends_cleanly() {
    assert_eq!(scan_all("  \t\r\n "), Ok(vec![]));
}

#[test]
fn scanning_is_restartable_at_any_returned_position() {
    let input = "one (skip) two three";
    let (t1, p1) = scan_token(input, 0).unwrap().unwrap();
    let (t2, p2) = scan_token(input, p1).unwrap().unwrap();
    let (t2_again, _) = scan_token(input, p1).unwrap().unwrap();
    let (t3, p3) = scan_token(input, p2).unwrap().unwrap();
    assert_eq!(t1, ident("one"));
    assert_eq!(t2, ident("two"));
    assert_eq!(t2_again, ident("two"));
    assert_eq!(t3, ident("three"));
    assert_eq!(scan_token(input, p3), Ok(None));
}

#[test]
fn unicode_whitespace_separates_tokens() {
    let tokens = scan_all("1\u{c}2\u{a0}3\u{2003}4\u{3000}5").unwrap();
    assert_eq!(
        tokens,
        vec![ident("1"), ident("2"), ident("3"), ident("4"), ident("5")]
    );
}

#[test]
fn open_paren_inside_a_name_does_not_open_a_comment() {
    let tokens = scan_all("a(b c").unwrap();
    assert_eq!(tokens, vec![ident("a(b"), ident("c")]);
}
