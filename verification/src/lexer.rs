//! Tokenizer of the query language.
use vstd::prelude::*;

use vstd::slice::slice_subrange;

use crate::ast::NumberLiteral;
use crate::text::{concat_decimal, decimal};

verus! {

/// The characters of `s`, in order (`str::chars`).
pub fn chars_of(s: &str) -> (r: Vec<char>)
    ensures
        r@ == s@,
{
    let mut out: Vec<char> = Vec::new();
    let n = s.unicode_len();
    let mut i: usize = 0;
    while i < n
        invariant
            i <= n,
            n == s@.len(),
            out@ == s@.take(i as int),
        decreases n - i,
    {
        out.push(s.get_char(i));
        assert(s@.take(i + 1) =~= s@.take(i as int).push(s@[i as int]));
        i = i + 1;
    }
    assert(s@.take(n as int) =~= s@);
    out
}

/// A string made of the given characters (`String: FromIterator<&char>`).
#[verifier::external_body]
pub(crate) fn string_from_chars(cs: &[char]) -> (r: String)
    ensures
        r@ == cs@,
{
    cs.iter().collect()
}

/// Errors of the lexer and the parser.
#[derive(Debug, Clone, PartialEq, Eq)]
pub enum ParserError {
    Lex { position: usize, message: String },
    Parse { position: usize, message: String },
}

impl ParserError {
    /// The human-readable text of the error.
    pub open spec fn text(self) -> Seq<char> {
        parser_error_text(self@)
    }

    /// Renders the error as text.
    pub fn message(&self) -> (r: String)
        ensures
            r@ == self.text(),
    {
        match self {
            ParserError::Lex { position, message } => {
                let mut r = concat_decimal("lex error at byte ", *position as u64);
                r.append(": ");
                r.append(message.as_str());
                r
            },
            ParserError::Parse { position, message } => {
                let mut r = concat_decimal("parse error at token ", *position as u64);
                r.append(": ");
                r.append(message.as_str());
                r
            },
        }
    }
}

/// The human-readable text of a lexing or parsing error.
pub open spec fn parser_error_text(e: ParserErrorV) -> Seq<char> {
    match e {
        ParserErrorV::Lex { position, message } => "lex error at byte "@ + decimal(position as nat)
            + ": "@ + message,
        ParserErrorV::Parse { position, message } => "parse error at token "@ + decimal(
            position as nat,
        ) + ": "@ + message,
    }
}

pub ghost enum ParserErrorV {
    Lex { position: usize, message: Seq<char> },
    Parse { position: usize, message: Seq<char> },
}

impl View for ParserError {
    type V = ParserErrorV;

    open spec fn view(&self) -> ParserErrorV {
        match self {
            ParserError::Lex { position, message } => ParserErrorV::Lex {
                position: *position,
                message: message@,
            },
            ParserError::Parse { position, message } => ParserErrorV::Parse {
                position: *position,
                message: message@,
            },
        }
    }
}

#[derive(Debug, Clone, PartialEq, Eq)]
pub enum Token {
    Ident(String),
    String(String),
    Number(NumberLiteral),
    LParen,
    RParen,
    Comma,
    Pipe,
    ArrowRight,
    ArrowLeft,
    EqEq,
    Ne,
    Lt,
    Lte,
    Gt,
    Gte,
    DotDot,
    Assign,
}

pub ghost enum TokenV {
    Ident(Seq<char>),
    Str(Seq<char>),
    Number(Seq<char>),
    LParen,
    RParen,
    Comma,
    Pipe,
    ArrowRight,
    ArrowLeft,
    EqEq,
    Ne,
    Lt,
    Lte,
    Gt,
    Gte,
    DotDot,
    Assign,
}

/// The comparison a token spells, applied to `x` and `v`: `==` equal, `!=`
/// different, `<` less, `<=` at most, `>` greater, `>=` at least; `None` for a
/// token that spells no comparison.
pub open spec fn spelled_comparison(t: TokenV, x: int, v: int) -> Option<bool> {
    match t {
        TokenV::EqEq => Some(x == v),
        TokenV::Ne => Some(x != v),
        TokenV::Lt => Some(x < v),
        TokenV::Lte => Some(x <= v),
        TokenV::Gt => Some(x > v),
        TokenV::Gte => Some(x >= v),
        _ => None,
    }
}

impl View for Token {
    type V = TokenV;

    open spec fn view(&self) -> TokenV {
        match self {
            Token::Ident(s) => TokenV::Ident(s@),
            Token::String(s) => TokenV::Str(s@),
            Token::Number(n) => TokenV::Number(n.text@),
            Token::LParen => TokenV::LParen,
            Token::RParen => TokenV::RParen,
            Token::Comma => TokenV::Comma,
            Token::Pipe => TokenV::Pipe,
            Token::ArrowRight => TokenV::ArrowRight,
            Token::ArrowLeft => TokenV::ArrowLeft,
            Token::EqEq => TokenV::EqEq,
            Token::Ne => TokenV::Ne,
            Token::Lt => TokenV::Lt,
            Token::Lte => TokenV::Lte,
            Token::Gt => TokenV::Gt,
            Token::Gte => TokenV::Gte,
            Token::DotDot => TokenV::DotDot,
            Token::Assign => TokenV::Assign,
        }
    }
}

impl Token {
    /// A copy of this token.
    pub fn duplicate(&self) -> (r: Self)
        ensures
            r@ == self@,
    {
        match self {
            Token::Ident(s) => Token::Ident(s.clone()),
            Token::String(s) => Token::String(s.clone()),
            Token::Number(n) => Token::Number(NumberLiteral { text: n.text.clone() }),
            Token::LParen => Token::LParen,
            Token::RParen => Token::RParen,
            Token::Comma => Token::Comma,
            Token::Pipe => Token::Pipe,
            Token::ArrowRight => Token::ArrowRight,
            Token::ArrowLeft => Token::ArrowLeft,
            Token::EqEq => Token::EqEq,
            Token::Ne => Token::Ne,
            Token::Lt => Token::Lt,
            Token::Lte => Token::Lte,
            Token::Gt => Token::Gt,
            Token::Gte => Token::Gte,
            Token::DotDot => Token::DotDot,
            Token::Assign => Token::Assign,
        }
    }
}

pub open spec fn tokens_view(ts: Seq<Token>) -> Seq<TokenV> {
    ts.map_values(|t: Token| t@)
}

// ----- character classes -----
pub open spec fn is_alpha(c: char) -> bool {
    ('a' <= c && c <= 'z') || ('A' <= c && c <= 'Z')
}

pub open spec fn is_digit(c: char) -> bool {
    '0' <= c && c <= '9'
}

pub open spec fn ident_start(c: char) -> bool {
    is_alpha(c) || c == '_'
}

pub open spec fn ident_char(c: char) -> bool {
    is_alpha(c) || is_digit(c) || c == '_'
}

/// Characters with the Unicode White_Space property.
pub open spec fn is_whitespace(c: char) -> bool {
    ||| ('\u{9}' <= c && c <= '\u{d}')
    ||| c == ' '
    ||| c == '\u{85}'
    ||| c == '\u{a0}'
    ||| c == '\u{1680}'
    ||| ('\u{2000}' <= c && c <= '\u{200a}')
    ||| c == '\u{2028}'
    ||| c == '\u{2029}'
    ||| c == '\u{202f}'
    ||| c == '\u{205f}'
    ||| c == '\u{3000}'
}

fn is_alpha_exec(c: char) -> (r: bool)
    ensures
        r == is_alpha(c),
{
    ('a' <= c && c <= 'z') || ('A' <= c && c <= 'Z')
}

fn is_digit_exec(c: char) -> (r: bool)
    ensures
        r == is_digit(c),
{
    '0' <= c && c <= '9'
}

pub fn is_whitespace_char(c: char) -> (r: bool)
    ensures
        r == is_whitespace(c),
{
    ('\u{9}' <= c && c <= '\u{d}') || c == ' ' || c == '\u{85}' || c == '\u{a0}' || c == '\u{1680}'
        || ('\u{2000}' <= c && c <= '\u{200a}') || c == '\u{2028}' || c == '\u{2029}' || c
        == '\u{202f}' || c == '\u{205f}' || c == '\u{3000}'
}

/// End of the run of identifier characters starting at `i`.
pub open spec fn ident_end(cs: Seq<char>, i: int) -> int
    decreases cs.len() - i,
{
    if i < cs.len() && ident_char(cs[i]) {
        ident_end(cs, i + 1)
    } else {
        i
    }
}

/// End of the run of digits starting at `i`.
pub open spec fn digits_end(cs: Seq<char>, i: int) -> int
    decreases cs.len() - i,
{
    if i < cs.len() && is_digit(cs[i]) {
        digits_end(cs, i + 1)
    } else {
        i
    }
}

/// End of the number whose first digit is at `i`: digits, then optionally a
/// point followed by at least one digit.
pub open spec fn number_end(cs: Seq<char>, i: int) -> int {
    let j = digits_end(cs, i + 1);
    if j < cs.len() && cs[j] == '.' && j + 1 < cs.len() && cs[j + 1] != '.' && is_digit(cs[j + 1]) {
        digits_end(cs, j + 1)
    } else {
        j
    }
}

pub proof fn lemma_ident_end_bounds(cs: Seq<char>, i: int)
    requires
        0 <= i <= cs.len(),
    ensures
        i <= ident_end(cs, i) <= cs.len(),
    decreases cs.len() - i,
{
    if i < cs.len() && ident_char(cs[i]) {
        lemma_ident_end_bounds(cs, i + 1);
    }
}

pub proof fn lemma_digits_end_bounds(cs: Seq<char>, i: int)
    requires
        0 <= i <= cs.len(),
    ensures
        i <= digits_end(cs, i) <= cs.len(),
    decreases cs.len() - i,
{
    if i < cs.len() && is_digit(cs[i]) {
        lemma_digits_end_bounds(cs, i + 1);
    }
}

pub proof fn lemma_number_end_bounds(cs: Seq<char>, i: int)
    requires
        0 <= i < cs.len(),
    ensures
        i < number_end(cs, i) <= cs.len(),
{
    lemma_digits_end_bounds(cs, i + 1);
    let j = digits_end(cs, i + 1);
    if j < cs.len() && cs[j] == '.' && j + 1 < cs.len() {
        lemma_digits_end_bounds(cs, j + 1);
    }
}

/// Meaning of an escaped character in a string literal.
pub open spec fn unescape(c: char) -> char {
    if c == 'n' {
        '\n'
    } else if c == 't' {
        '\t'
    } else {
        c
    }
}

/// Scans the body of a string literal opened at `start`, from `i`: the value
/// read so far is `acc`. Gives the value and the position after the closing
/// quote.
pub open spec fn string_body(cs: Seq<char>, i: int, acc: Seq<char>, start: usize) -> Result<
    (Seq<char>, int),
    ParserErrorV,
>
    decreases cs.len() - i,
{
    if i < 0 || i >= cs.len() {
        Err(ParserErrorV::Lex { position: start, message: "unterminated string literal"@ })
    } else if cs[i] == '"' {
        Ok((acc, i + 1))
    } else if cs[i] == '\\' {
        if i + 1 >= cs.len() {
            Err(ParserErrorV::Lex { position: start, message: "unterminated escape sequence"@ })
        } else {
            string_body(cs, i + 2, acc.push(unescape(cs[i + 1])), start)
        }
    } else {
        string_body(cs, i + 1, acc.push(cs[i]), start)
    }
}

pub proof fn lemma_string_body_advances(cs: Seq<char>, i: int, acc: Seq<char>, start: usize)
    requires
        0 <= i,
    ensures
        string_body(cs, i, acc, start) matches Ok((_, j)) ==> i < j <= cs.len(),
    decreases cs.len() - i,
{
    if 0 <= i < cs.len() && cs[i] != '"' {
        if cs[i] == '\\' {
            if i + 1 < cs.len() {
                lemma_string_body_advances(cs, i + 2, acc.push(unescape(cs[i + 1])), start);
            }
        } else {
            lemma_string_body_advances(cs, i + 1, acc.push(cs[i]), start);
        }
    }
}

/// A lexing error at position `i` with message `m`.
pub open spec fn lex_error(i: int, m: Seq<char>) -> ParserErrorV {
    ParserErrorV::Lex { position: i as usize, message: m }
}

/// The tokens of `cs` from position `i` on, after the tokens `acc` already
/// read, or the first lexing error.
pub open spec fn lex_from(cs: Seq<char>, i: int, acc: Seq<TokenV>) -> Result<Seq<TokenV>, ParserErrorV>
    decreases cs.len() - i,
{
    if i < 0 || i >= cs.len() {
        Ok(acc)
    } else {
        let c = cs[i];
        let has_next = i + 1 < cs.len();
        if is_whitespace(c) {
            lex_from(cs, i + 1, acc)
        } else if ident_start(c) {
            let j = ident_end(cs, i + 1);
            proof {
                lemma_ident_end_bounds(cs, i + 1);
            }
            lex_from(cs, j, acc.push(TokenV::Ident(cs.subrange(i, j))))
        } else if is_digit(c) {
            let j = number_end(cs, i);
            proof {
                lemma_number_end_bounds(cs, i);
            }
            lex_from(cs, j, acc.push(TokenV::Number(cs.subrange(i, j))))
        } else if c == '"' {
            proof {
                lemma_string_body_advances(cs, i + 1, Seq::empty(), i as usize);
            }
            match string_body(cs, i + 1, Seq::empty(), i as usize) {
                Err(e) => Err(e),
                Ok((v, j)) => lex_from(cs, j, acc.push(TokenV::Str(v))),
            }
        } else if c == '(' {
            lex_from(cs, i + 1, acc.push(TokenV::LParen))
        } else if c == ')' {
            lex_from(cs, i + 1, acc.push(TokenV::RParen))
        } else if c == ',' {
            lex_from(cs, i + 1, acc.push(TokenV::Comma))
        } else if c == '|' {
            lex_from(cs, i + 1, acc.push(TokenV::Pipe))
        } else if c == '-' {
            if has_next && cs[i + 1] == '>' {
                lex_from(cs, i + 2, acc.push(TokenV::ArrowRight))
            } else {
                Err(lex_error(i, "unexpected '-'"@))
            }
        } else if c == '<' {
            if has_next && cs[i + 1] == '-' {
                lex_from(cs, i + 2, acc.push(TokenV::ArrowLeft))
            } else if has_next && cs[i + 1] == '=' {
                lex_from(cs, i + 2, acc.push(TokenV::Lte))
            } else {
                lex_from(cs, i + 1, acc.push(TokenV::Lt))
            }
        } else if c == '>' {
            if has_next && cs[i + 1] == '=' {
                lex_from(cs, i + 2, acc.push(TokenV::Gte))
            } else {
                lex_from(cs, i + 1, acc.push(TokenV::Gt))
            }
        } else if c == '=' {
            if has_next && cs[i + 1] == '=' {
                lex_from(cs, i + 2, acc.push(TokenV::EqEq))
            } else {
                lex_from(cs, i + 1, acc.push(TokenV::Assign))
            }
        } else if c == '!' {
            if has_next && cs[i + 1] == '=' {
                lex_from(cs, i + 2, acc.push(TokenV::Ne))
            } else {
                Err(lex_error(i, "unexpected '!'"@))
            }
        } else if c == '.' {
            if has_next && cs[i + 1] == '.' {
                lex_from(cs, i + 2, acc.push(TokenV::DotDot))
            } else {
                Err(lex_error(i, "unexpected '.'"@))
            }
        } else {
            Err(lex_error(i, "unexpected character '"@ + seq![c] + "'"@))
        }
    }
}

/// The tokens of `input`, or the first lexing error.
pub open spec fn lex_spec(input: Seq<char>) -> Result<Seq<TokenV>, ParserErrorV> {
    lex_from(input, 0, Seq::empty())
}

fn scan_ident_end(cs: &Vec<char>, i: usize) -> (j: usize)
    requires
        i <= cs@.len(),
    ensures
        j == ident_end(cs@, i as int),
        i <= j <= cs@.len(),
{
    let mut j = i;
    while j < cs.len() && (is_alpha_exec(cs[j]) || is_digit_exec(cs[j]) || cs[j] == '_')
        invariant
            i <= j <= cs@.len(),
            ident_end(cs@, j as int) == ident_end(cs@, i as int),
        decreases cs@.len() - j,
    {
        j = j + 1;
    }
    j
}

fn scan_digits_end(cs: &Vec<char>, i: usize) -> (j: usize)
    requires
        i <= cs@.len(),
    ensures
        j == digits_end(cs@, i as int),
        i <= j <= cs@.len(),
{
    let mut j = i;
    while j < cs.len() && is_digit_exec(cs[j])
        invariant
            i <= j <= cs@.len(),
            digits_end(cs@, j as int) == digits_end(cs@, i as int),
        decreases cs@.len() - j,
    {
        j = j + 1;
    }
    j
}

fn scan_string_body(cs: &Vec<char>, i: usize, start: usize) -> (r: Result<(String, usize), ParserError>)
    requires
        i <= cs@.len(),
    ensures
        match (r, string_body(cs@, i as int, Seq::empty(), start)) {
            (Ok((v, j)), Ok((w, k))) => v@ == w && j == k,
            (Err(e1), Err(e2)) => e1@ == e2,
            _ => false,
        },
{
    let mut value: Vec<char> = Vec::new();
    let mut k = i;
    while k < cs.len()
        invariant
            i <= k <= cs@.len(),
            string_body(cs@, k as int, value@, start) == string_body(
                cs@,
                i as int,
                Seq::empty(),
                start,
            ),
        decreases cs@.len() - k,
    {
        let cur = cs[k];
        if cur == '"' {
            return Ok((string_from_chars(value.as_slice()), k + 1));
        }
        if cur == '\\' {
            if k + 1 >= cs.len() {
                return Err(
                    ParserError::Lex {
                        position: start,
                        message: String::from_str("unterminated escape sequence"),
                    },
                );
            }
            let escaped = cs[k + 1];
            let unescaped = if escaped == 'n' {
                '\n'
            } else if escaped == 't' {
                '\t'
            } else {
                escaped
            };
            value.push(unescaped);
            k = k + 2;
        } else {
            value.push(cur);
            k = k + 1;
        }
    }
    Err(
        ParserError::Lex { position: start, message: String::from_str("unterminated string literal") },
    )
}

fn push_token(out: &mut Vec<Token>, t: Token)
    ensures
        tokens_view(final(out)@) == tokens_view(old(out)@).push(t@),
{
    out.push(t);
    assert(tokens_view(out@) =~= tokens_view(old(out)@).push(t@));
}

fn lex_failure(position: usize, text: &str) -> (r: ParserError)
    ensures
        r@ == (ParserErrorV::Lex { position, message: text@ }),
{
    ParserError::Lex { position, message: String::from_str(text) }
}

/// Splits query text into tokens.
pub fn lex(input: &str) -> (r: Result<Vec<Token>, ParserError>)
    ensures
        match (r, lex_spec(input@)) {
            (Ok(ts), Ok(vs)) => tokens_view(ts@) == vs,
            (Err(e1), Err(e2)) => e1@ == e2,
            _ => false,
        },
{
    let chars = chars_of(input);
    let n = chars.len();
    let mut i: usize = 0;
    let mut out: Vec<Token> = Vec::new();
    assert(tokens_view(out@) =~= Seq::<TokenV>::empty());

    while i < n
        invariant
            i <= n,
            n == chars@.len(),
            chars@ == input@,
            lex_from(chars@, i as int, tokens_view(out@)) == lex_spec(input@),
        decreases n - i,
    {
        let ghost cs = chars@;
        let ghost acc = tokens_view(out@);
        let ch = chars[i];
        let has_next = i + 1 < n;

        if is_whitespace_char(ch) {
            i = i + 1;
            continue;
        }
        if is_alpha_exec(ch) || ch == '_' {
            let j = scan_ident_end(&chars, i + 1);
            let ident = string_from_chars(slice_subrange(chars.as_slice(), i, j));
            proof {
                lemma_ident_end_bounds(cs, i + 1);
            }
            push_token(&mut out, Token::Ident(ident));
            i = j;
            continue;
        }
        if is_digit_exec(ch) {
            let d = scan_digits_end(&chars, i + 1);
            let j = if d < n && chars[d] == '.' && d + 1 < n && chars[d + 1] != '.' && is_digit_exec(
                chars[d + 1],
            ) {
                scan_digits_end(&chars, d + 1)
            } else {
                d
            };
            proof {
                lemma_number_end_bounds(cs, i as int);
            }
            let text = string_from_chars(slice_subrange(chars.as_slice(), i, j));
            push_token(&mut out, Token::Number(NumberLiteral { text }));
            i = j;
            continue;
        }
        if ch == '"' {
            proof {
                lemma_string_body_advances(cs, i + 1, Seq::empty(), i);
            }
            match scan_string_body(&chars, i + 1, i) {
                Err(e) => {
                    return Err(e);
                },
                Ok((value, j)) => {
                    push_token(&mut out, Token::String(value));
                    i = j;
                    continue;
                },
            }
        }
        if ch == '(' {
            push_token(&mut out, Token::LParen);
            i = i + 1;
        } else if ch == ')' {
            push_token(&mut out, Token::RParen);
            i = i + 1;
        } else if ch == ',' {
            push_token(&mut out, Token::Comma);
            i = i + 1;
        } else if ch == '|' {
            push_token(&mut out, Token::Pipe);
            i = i + 1;
        } else if ch == '-' {
            if has_next && chars[i + 1] == '>' {
                push_token(&mut out, Token::ArrowRight);
                i = i + 2;
            } else {
                return Err(lex_failure(i, "unexpected '-'"));
            }
        } else if ch == '<' {
            if has_next && chars[i + 1] == '-' {
                push_token(&mut out, Token::ArrowLeft);
                i = i + 2;
            } else if has_next && chars[i + 1] == '=' {
                push_token(&mut out, Token::Lte);
                i = i + 2;
            } else {
                push_token(&mut out, Token::Lt);
                i = i + 1;
            }
        } else if ch == '>' {
            if has_next && chars[i + 1] == '=' {
                push_token(&mut out, Token::Gte);
                i = i + 2;
            } else {
                push_token(&mut out, Token::Gt);
                i = i + 1;
            }
        } else if ch == '=' {
            if has_next && chars[i + 1] == '=' {
                push_token(&mut out, Token::EqEq);
                i = i + 2;
            } else {
                push_token(&mut out, Token::Assign);
                i = i + 1;
            }
        } else if ch == '!' {
            if has_next && chars[i + 1] == '=' {
                push_token(&mut out, Token::Ne);
                i = i + 2;
            } else {
                return Err(lex_failure(i, "unexpected '!'"));
            }
        } else if ch == '.' {
            if has_next && chars[i + 1] == '.' {
                push_token(&mut out, Token::DotDot);
                i = i + 2;
            } else {
                return Err(lex_failure(i, "unexpected '.'"));
            }
        } else {
            let mut m = chars_of("unexpected character '");
            m.push(ch);
            m.push('\'');
            proof {
                reveal_strlit("'");
                assert(m@ =~= "unexpected character '"@ + seq![ch] + "'"@);
            }
            return Err(ParserError::Lex { position: i, message: string_from_chars(m.as_slice()) });
        }
    }
    Ok(out)
}

} // verus!
