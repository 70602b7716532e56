//! Lexical scanner. Source text is a sequence of characters; a scan yields the
//! next token and the position at which scanning is to resume, skipping
//! whitespace and comments. `spec_scan_token` is the mathematical definition of
//! one scan; `scan_token` is the executable scanner proved against it.
//!
//! The grammar: `(` opens a comment that nests on further `(` and produces no
//! token; `{` and `}` are the single-character tokens `FunctionStart` and
//! `FunctionEnd`; `/` and `#` begin an assignment-name and a namespace-switch
//! token; any other character begins a plain identifier. A name-bearing token
//! ends before whitespace or a brace, which is not consumed.

use vstd::prelude::*;

use crate::error::SyntaxError;

verus! {

/// True exactly for the characters this language treats as token
/// separators: the characters of Unicode's `White_Space` property, the set
/// `char::is_whitespace` recognises.
pub open spec fn spec_is_space(c: char) -> bool {
    ||| c == ' ' || c == '\t' || c == '\n' || c == '\u{b}' || c == '\u{c}' || c == '\r'
    ||| c == '\u{85}' || c == '\u{a0}' || c == '\u{1680}'
    ||| ('\u{2000}' as int <= c as int && c as int <= '\u{200a}' as int)
    ||| c == '\u{2028}' || c == '\u{2029}' || c == '\u{202f}' || c == '\u{205f}' || c == '\u{3000}'
}

/// Whitespace test used by the scanner.
pub fn is_space(c: char) -> (r: bool)
    ensures
        r == spec_is_space(c),
{
    let u = c as u32;
    u == 0x20 || (0x9 <= u && u <= 0xd) || u == 0x85 || u == 0xa0 || u == 0x1680 || (0x2000 <= u
        && u <= 0x200a) || u == 0x2028 || u == 0x2029 || u == 0x202f || u == 0x205f || u == 0x3000
}

/// Atomic lexical unit produced by the scanner.
#[derive(Debug, PartialEq, Eq, Hash)]
pub enum Token {
    Identifier(String),
    AssignIdentifier(String),
    SetNamespace(String),
    FunctionStart,
    FunctionEnd,
}

/// Mathematical model of a token: names are character sequences.
#[verifier::ext_equal]
pub enum TokenV {
    Identifier(Seq<char>),
    AssignIdentifier(Seq<char>),
    SetNamespace(Seq<char>),
    FunctionStart,
    FunctionEnd,
}

impl View for Token {
    type V = TokenV;

    open spec fn view(&self) -> TokenV {
        match self {
            Token::Identifier(name) => TokenV::Identifier(name@),
            Token::AssignIdentifier(name) => TokenV::AssignIdentifier(name@),
            Token::SetNamespace(name) => TokenV::SetNamespace(name@),
            Token::FunctionStart => TokenV::FunctionStart,
            Token::FunctionEnd => TokenV::FunctionEnd,
        }
    }
}

impl Clone for Token {
    /// A cloned token equals the original.
    fn clone(&self) -> (r: Self)
        ensures
            r == *self,
    {
        match self {
            Token::Identifier(name) => Token::Identifier(name.clone()),
            Token::AssignIdentifier(name) => Token::AssignIdentifier(name.clone()),
            Token::SetNamespace(name) => Token::SetNamespace(name.clone()),
            Token::FunctionStart => Token::FunctionStart,
            Token::FunctionEnd => Token::FunctionEnd,
        }
    }
}

/// Whether two tokens carry the same content. (The derived `==` is opaque to
/// proofs, so the engine compares through this function.)
pub fn token_eq(a: &Token, b: &Token) -> (r: bool)
    ensures
        r == (a@ == b@),
{
    match (a, b) {
        (Token::Identifier(x), Token::Identifier(y)) => *x == *y,
        (Token::AssignIdentifier(x), Token::AssignIdentifier(y)) => *x == *y,
        (Token::SetNamespace(x), Token::SetNamespace(y)) => *x == *y,
        (Token::FunctionStart, Token::FunctionStart) => true,
        (Token::FunctionEnd, Token::FunctionEnd) => true,
        _ => false,
    }
}

impl TokenV {
    /// A token is well formed when its name, if it has one, is non-empty.
    /// The scanner only ever produces well-formed tokens.
    pub open spec fn wf(self) -> bool {
        match self {
            TokenV::Identifier(name) => name.len() > 0,
            TokenV::AssignIdentifier(name) => name.len() > 0,
            TokenV::SetNamespace(name) => name.len() > 0,
            TokenV::FunctionStart => true,
            TokenV::FunctionEnd => true,
        }
    }

    /// Tokens captured inside a function literal, and hence the tokens of the
    /// continuation stack, are never braces: the engine tracks literal
    /// nesting with a counter and appends only the other tokens.
    pub open spec fn inner_wf(self) -> bool {
        self.wf() && !(self is FunctionStart) && !(self is FunctionEnd)
    }
}

/// The model of a sequence of tokens.
pub open spec fn tokens_view(ts: Seq<Token>) -> Seq<TokenV> {
    ts.map_values(|t: Token| t@)
}

/// True for the characters that end a name-bearing token.
pub open spec fn spec_is_name_end(c: char) -> bool {
    spec_is_space(c) || c == '{' || c == '}'
}

/// First position at or after `pos` that ends a name, or the end of input.
pub open spec fn spec_name_end(s: Seq<char>, pos: int) -> int
    decreases s.len() - pos,
{
    if pos < 0 || pos >= s.len() {
        s.len() as int
    } else if spec_is_name_end(s[pos]) {
        pos
    } else {
        spec_name_end(s, pos + 1)
    }
}

/// Position just after the `)` that closes a comment whose body continues at
/// `pos` with `depth` still-open nested comments, or `None` if the input ends
/// inside the comment.
pub open spec fn spec_comment_end(s: Seq<char>, pos: int, depth: nat) -> Option<int>
    decreases s.len() - pos,
{
    if pos < 0 || pos >= s.len() {
        None
    } else if s[pos] == ')' {
        if depth == 0 {
            Some(pos + 1)
        } else {
            spec_comment_end(s, pos + 1, (depth - 1) as nat)
        }
    } else if s[pos] == '(' {
        spec_comment_end(s, pos + 1, depth + 1)
    } else {
        spec_comment_end(s, pos + 1, depth)
    }
}

/// A closed comment ends after its opening position and within the input.
pub proof fn lemma_comment_end_bounds(s: Seq<char>, pos: int, depth: nat)
    ensures
        spec_comment_end(s, pos, depth) matches Some(q) ==> pos < q <= s.len(),
    decreases s.len() - pos,
{
    if 0 <= pos < s.len() {
        if s[pos] == ')' && depth == 0 {
        } else if s[pos] == ')' {
            lemma_comment_end_bounds(s, pos + 1, (depth - 1) as nat);
        } else if s[pos] == '(' {
            lemma_comment_end_bounds(s, pos + 1, depth + 1);
        } else {
            lemma_comment_end_bounds(s, pos + 1, depth);
        }
    }
}

/// The name collected from `pos` ends at or after `pos`, within the input.
pub proof fn lemma_name_end_bounds(s: Seq<char>, pos: int)
    requires
        0 <= pos <= s.len(),
    ensures
        pos <= spec_name_end(s, pos) <= s.len(),
        forall|i: int|
            pos <= i < spec_name_end(s, pos) ==> !spec_is_name_end(s[i]),
        spec_name_end(s, pos) < s.len() ==> spec_is_name_end(s[spec_name_end(s, pos)]),
    decreases s.len() - pos,
{
    if pos < s.len() && !spec_is_name_end(s[pos]) {
        lemma_name_end_bounds(s, pos + 1);
    }
}

/// One scan: the next token of `s` at or after `pos` together with the
/// position at which scanning resumes, `None` at the end of the input, or a
/// syntax error. Comments produce no token: scanning continues after them.
pub open spec fn spec_scan_token(s: Seq<char>, pos: int) -> Result<Option<(TokenV, int)>, SyntaxError>
    decreases s.len() - pos, 1int
        via spec_scan_token_decreases
{
    if pos < 0 || pos >= s.len() {
        Ok(None)
    } else if spec_is_space(s[pos]) {
        spec_scan_token(s, pos + 1)
    } else if s[pos] == '(' {
        match spec_comment_end(s, pos + 1, 0) {
            None => Err(SyntaxError::UnexpectedEndOfInput),
            Some(q) => spec_scan_token(s, q),
        }
    } else if s[pos] == '{' {
        Ok(Some((TokenV::FunctionStart, pos + 1)))
    } else if s[pos] == '}' {
        Ok(Some((TokenV::FunctionEnd, pos + 1)))
    } else if s[pos] == '/' {
        let e = spec_name_end(s, pos + 1);
        if e == pos + 1 {
            Err(SyntaxError::AssignToEmpty)
        } else {
            Ok(Some((TokenV::AssignIdentifier(s.subrange(pos + 1, e)), e)))
        }
    } else if s[pos] == '#' {
        let e = spec_name_end(s, pos + 1);
        if e == pos + 1 {
            Err(SyntaxError::AssignToEmpty)
        } else {
            Ok(Some((TokenV::SetNamespace(s.subrange(pos + 1, e)), e)))
        }
    } else {
        Ok(Some((TokenV::Identifier(s.subrange(pos, spec_name_end(s, pos))), spec_name_end(s, pos))))
    }
}

#[via_fn]
proof fn spec_scan_token_decreases(s: Seq<char>, pos: int) {
    if 0 <= pos < s.len() && s[pos] == '(' {
        lemma_comment_end_bounds(s, pos + 1, 0);
    }
}

/// Scan the next token of `input` at or after character position `pos`.
/// Returns the token and the position at which to resume, `None` at the end
/// of the input, or the syntax error the model prescribes.
pub fn scan_token(input: &str, pos: usize) -> (r: Result<Option<(Token, usize)>, SyntaxError>)
    requires
        pos <= input@.len(),
    ensures
        match r {
            Ok(Some((t, q))) => spec_scan_token(input@, pos as int) == Ok::<_, SyntaxError>(
                Some((t@, q as int)),
            ) && t@.wf() && pos < q <= input@.len(),
            Ok(None) => spec_scan_token(input@, pos as int) == Ok::<Option<(TokenV, int)>, SyntaxError>(None),
            Err(e) => spec_scan_token(input@, pos as int) == Err::<Option<(TokenV, int)>, SyntaxError>(e),
        },
{
    let ghost s = input@;
    let n = input.unicode_len();
    let mut i = pos;

    // Skip whitespace and comments until a token begins or the input ends.
    loop
        invariant
            pos <= i <= n,
            n == s.len(),
            s == input@,
            spec_scan_token(s, pos as int) == spec_scan_token(s, i as int),
        ensures
            i < n,
            !spec_is_space(s[i as int]),
            s[i as int] != '(',
        decreases n - i,
    {
        if i == n {
            return Ok(None);
        }
        let c = input.get_char(i);
        if is_space(c) {
            i = i + 1;
        } else if c == '(' {
            // Consume the comment, tracking the nesting depth.
            let open = i;
            let mut depth: usize = 0;
            i = i + 1;
            loop
                invariant_except_break
                    spec_comment_end(s, open + 1, 0) == spec_comment_end(s, i as int, depth as nat),
                invariant
                    open < i <= n,
                    n == s.len(),
                    s == input@,
                    depth <= i,
                    pos <= open,
                    s[open as int] == '(',
                    !spec_is_space(s[open as int]),
                    spec_scan_token(s, pos as int) == spec_scan_token(s, open as int),
                ensures
                    spec_comment_end(s, open + 1, 0) == Some(i as int),
                    open < i <= n,
                decreases n - i,
            {
                if i == n {
                    proof {
                        assert(spec_comment_end(s, open + 1, 0) is None);
                        assert(spec_scan_token(s, open as int) == Err::<Option<(TokenV, int)>, SyntaxError>(
                            SyntaxError::UnexpectedEndOfInput,
                        ));
                    }
                    return Err(SyntaxError::UnexpectedEndOfInput);
                }
                let c2 = input.get_char(i);
                if c2 == ')' {
                    if depth == 0 {
                        i = i + 1;
                        break;
                    } else {
                        depth = depth - 1;
                        i = i + 1;
                    }
                } else if c2 == '(' {
                    depth = depth + 1;
                    i = i + 1;
                } else {
                    i = i + 1;
                }
            }
            proof {
                assert(spec_scan_token(s, open as int) == spec_scan_token(s, i as int));
            }
        } else {
            break;
        }
    }

    // A token begins at `i`.
    let c = input.get_char(i);
    if c == '{' {
        Ok(Some((Token::FunctionStart, i + 1)))
    } else if c == '}' {
        Ok(Some((Token::FunctionEnd, i + 1)))
    } else if c == '/' || c == '#' {
        let e = name_end(input, i + 1);
        proof {
            lemma_name_end_bounds(s, i + 1);
        }
        if e == i + 1 {
            Err(SyntaxError::AssignToEmpty)
        } else {
            let name = input.substring_char(i + 1, e).to_owned();
            if c == '/' {
                Ok(Some((Token::AssignIdentifier(name), e)))
            } else {
                Ok(Some((Token::SetNamespace(name), e)))
            }
        }
    } else {
        let e = name_end(input, i);
        proof {
            lemma_name_end_bounds(s, i as int);
            assert(spec_name_end(s, i as int) == spec_name_end(s, i + 1));
            assert(e > i);
        }
        let name = input.substring_char(i, e).to_owned();
        Ok(Some((Token::Identifier(name), e)))
    }
}

/// First position at or after `pos` that ends a name, or the end of `input`.
fn name_end(input: &str, pos: usize) -> (e: usize)
    requires
        pos <= input@.len(),
    ensures
        e == spec_name_end(input@, pos as int),
        pos <= e <= input@.len(),
{
    let ghost s = input@;
    let n = input.unicode_len();
    let mut i = pos;
    loop
        invariant
            pos <= i <= n,
            n == s.len(),
            s == input@,
            spec_name_end(s, pos as int) == spec_name_end(s, i as int),
        decreases n - i,
    {
        if i == n {
            return i;
        }
        let c = input.get_char(i);
        if is_space(c) || c == '{' || c == '}' {
            return i;
        }
        i = i + 1;
    }
}

} // verus!
