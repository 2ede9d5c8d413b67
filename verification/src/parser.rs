//! Recursive-descent parser of the query language.
use vstd::prelude::*;
use vstd::slice::slice_subrange;

use crate::literal::{literal_reading_debug_text, literal_reading_text, literal_whole_value};

use crate::ast::{
    QueryAstV, QueryNodeV, TraversalStepV, predicates_view, steps_view, AggregateOp, Literal, NumberLiteral, OrderBy, Predicate,
    PredicateOp, QueryAst, QueryMode, QueryNode, SortDirection, TraversalDirection, TraversalStep,
};
use crate::grammar::{
    aggregate_named, and_chain, char_eq_ignore_case, digit_value, digits_value, direction_at,
    eq_ignore_case, escape_char, escape_text, expect_at, expected_error, hops_from, ident_at,
    keyword_at, kind_at, leading_zeros_end, literal_at, number_at,
    number_display, trailing_zeros_start, op_at, parse_error,
    parse_query_spec, pipeline_from, predicate_at, query_of_tokens, quoted, same_kind,
    sort_direction_at, source_at, step_at, string_at, token_text, transform_at, u64_at, where_at,
};
use crate::lexer::{
    chars_of, digits_end, is_digit, lex, string_from_chars, tokens_view, ParserError,
    ParserErrorV, Token, TokenV,
};
use crate::text::concat_str;

verus! {

// ----- text helpers -----
fn char_eq_ignore_case_exec(a: char, b: char) -> (r: bool)
    ensures
        r == char_eq_ignore_case(a, b),
{
    if a == b {
        true
    } else if 'A' <= a && a <= 'Z' && (a as u32) + 32 == (b as u32) {
        true
    } else {
        'A' <= b && b <= 'Z' && (b as u32) + 32 == (a as u32)
    }
}

/// `str::eq_ignore_ascii_case`.
pub fn eq_ignore_ascii_case(a: &str, b: &str) -> (r: bool)
    ensures
        r == eq_ignore_case(a@, b@),
{
    let ca = chars_of(a);
    let cb = chars_of(b);
    if ca.len() != cb.len() {
        return false;
    }
    let mut i: usize = 0;
    while i < ca.len()
        invariant
            ca@ == a@,
            cb@ == b@,
            ca@.len() == cb@.len(),
            i <= ca@.len(),
            forall|k: int| 0 <= k < i ==> char_eq_ignore_case(#[trigger] ca@[k], cb@[k]),
        decreases ca@.len() - i,
    {
        if !char_eq_ignore_case_exec(ca[i], cb[i]) {
            return false;
        }
        i = i + 1;
    }
    true
}

fn push_escaped(out: &mut Vec<char>, c: char)
    ensures
        final(out)@ == old(out)@ + escape_char(c),
{
    if c == '"' {
        out.push('\\');
        out.push('"');
    } else if c == '\\' {
        out.push('\\');
        out.push('\\');
    } else if c == '\n' {
        out.push('\\');
        out.push('n');
    } else if c == '\t' {
        out.push('\\');
        out.push('t');
    } else if c == '\r' {
        out.push('\\');
        out.push('r');
    } else if c == '\0' {
        out.push('\\');
        out.push('0');
    } else {
        out.push(c);
    }
    assert(out@ =~= old(out)@ + escape_char(c));
}

fn quote_text(v: &str) -> (r: String)
    ensures
        r@ == quoted(v@),
{
    let cs = chars_of(v);
    let mut out: Vec<char> = Vec::new();
    out.push('"');
    let mut i: usize = 0;
    assert(cs@.take(0) =~= Seq::<char>::empty());
    while i < cs.len()
        invariant
            cs@ == v@,
            i <= cs@.len(),
            out@ == seq!['"'] + escape_text(cs@.take(i as int)),
        decreases cs@.len() - i,
    {
        push_escaped(&mut out, cs[i]);
        assert(cs@.take(i + 1).drop_last() =~= cs@.take(i as int));
        assert(out@ =~= seq!['"'] + escape_text(cs@.take(i + 1)));
        i = i + 1;
    }
    out.push('"');
    assert(cs@.take(cs@.len() as int) =~= cs@);
    assert(out@ =~= quoted(v@));
    string_from_chars(out.as_slice())
}

fn wrap(prefix: &str, middle: &str, suffix: &str) -> (r: String)
    ensures
        r@ == prefix@ + middle@ + suffix@,
{
    let mut s = String::from_str(prefix);
    s.append(middle);
    s.append(suffix);
    s
}

/// How a token is named in diagnostics.
pub fn render_token(t: &Token) -> (r: String)
    ensures
        r@ == token_text(t@),
{
    match t {
        Token::Ident(v) => {
            let q = quote_text(v.as_str());
            wrap("Ident(", q.as_str(), ")")
        },
        Token::String(v) => {
            let q = quote_text(v.as_str());
            wrap("String(", q.as_str(), ")")
        },
        Token::Number(n) => {
            let v = literal_reading_debug_text(n.text.as_str());
            wrap("Number(", v.as_str(), ")")
        },
        Token::LParen => String::from_str("LParen"),
        Token::RParen => String::from_str("RParen"),
        Token::Comma => String::from_str("Comma"),
        Token::Pipe => String::from_str("Pipe"),
        Token::ArrowRight => String::from_str("ArrowRight"),
        Token::ArrowLeft => String::from_str("ArrowLeft"),
        Token::EqEq => String::from_str("EqEq"),
        Token::Ne => String::from_str("Ne"),
        Token::Lt => String::from_str("Lt"),
        Token::Lte => String::from_str("Lte"),
        Token::Gt => String::from_str("Gt"),
        Token::Gte => String::from_str("Gte"),
        Token::DotDot => String::from_str("DotDot"),
        Token::Assign => String::from_str("Assign"),
    }
}

fn same_kind_exec(a: &Token, b: &Token) -> (r: bool)
    ensures
        r == same_kind(a@, b@),
{
    match (a, b) {
        (Token::Ident(_), Token::Ident(_)) => true,
        (Token::String(_), Token::String(_)) => true,
        (Token::Number(_), Token::Number(_)) => true,
        (Token::LParen, Token::LParen) => true,
        (Token::RParen, Token::RParen) => true,
        (Token::Comma, Token::Comma) => true,
        (Token::Pipe, Token::Pipe) => true,
        (Token::ArrowRight, Token::ArrowRight) => true,
        (Token::ArrowLeft, Token::ArrowLeft) => true,
        (Token::EqEq, Token::EqEq) => true,
        (Token::Ne, Token::Ne) => true,
        (Token::Lt, Token::Lt) => true,
        (Token::Lte, Token::Lte) => true,
        (Token::Gt, Token::Gt) => true,
        (Token::Gte, Token::Gte) => true,
        (Token::DotDot, Token::DotDot) => true,
        (Token::Assign, Token::Assign) => true,
        _ => false,
    }
}

// ----- numbers -----
pub(crate) fn digit_of(c: char) -> (r: u64)
    ensures
        r == digit_value(c),
{
    if c == '1' {
        1
    } else if c == '2' {
        2
    } else if c == '3' {
        3
    } else if c == '4' {
        4
    } else if c == '5' {
        5
    } else if c == '6' {
        6
    } else if c == '7' {
        7
    } else if c == '8' {
        8
    } else if c == '9' {
        9
    } else {
        0
    }
}

/// How a number literal reads as a decimal value (see `number_display`).
pub fn number_display_text(t: &str) -> (r: String)
    ensures
        r@ == number_display(t@),
{
    let cs = chars_of(t);
    let n = cs.len();
    let mut d: usize = 0;
    while d < n && is_digit_char(cs[d])
        invariant
            cs@ == t@,
            n == cs@.len(),
            d <= n,
            digits_end(cs@, d as int) == digits_end(cs@, 0),
        decreases n - d,
    {
        d = d + 1;
    }
    let mut a: usize = 0;
    while a + 1 < d && cs[a] == '0'
        invariant
            cs@ == t@,
            n == cs@.len(),
            d <= n,
            a == 0 || a < d,
            leading_zeros_end(cs@, a as int, d as int) == leading_zeros_end(cs@, 0, d as int),
        decreases d - a,
    {
        a = a + 1;
    }
    let mut end: usize = d;
    if d < n {
        let mut b: usize = n;
        while b > d + 1 && cs[b - 1] == '0'
            invariant
                cs@ == t@,
                n == cs@.len(),
                d < n,
                d + 1 <= b <= n,
                trailing_zeros_start(cs@, d + 1, b as int) == trailing_zeros_start(
                    cs@,
                    d + 1,
                    n as int,
                ),
            decreases b,
        {
            b = b - 1;
        }
        if b > d + 1 {
            end = b;
        }
    }
    let r = string_from_chars(slice_subrange(cs.as_slice(), a, end));
    proof {
        assert(r@ =~= number_display(t@));
    }
    r
}

pub(crate) fn is_digit_char(c: char) -> (r: bool)
    ensures
        r == is_digit(c),
{
    '0' <= c && c <= '9'
}

// ----- the parser -----
/// A traversal source once its hops are read: its `where` clause follows.
spec fn source_after_hops(
    ts: Seq<TokenV>,
    hops: Result<(Seq<TraversalStepV>, Seq<TraversalDirection>, int), ParserErrorV>,
) -> Result<(QueryNodeV, int), ParserErrorV> {
    match hops {
        Err(e) => Err(e),
        Ok((steps, directions, s)) => match where_at(ts, s) {
            Err(e) => Err(e),
            Ok((predicates, u)) => Ok((QueryNodeV::Traversal { steps, directions, predicates }, u)),
        },
    }
}

/// A query once its transforms are read: nothing may follow them.
spec fn query_after_pipeline(
    ts: Seq<TokenV>,
    mode: QueryMode,
    piped: Result<(QueryNodeV, int), ParserErrorV>,
) -> Result<QueryAstV, ParserErrorV> {
    match piped {
        Err(e) => Err(e),
        Ok((root, r)) => if r < ts.len() {
            Err(parse_error(r, "unexpected trailing tokens"@))
        } else {
            Ok(QueryAstV { mode, root })
        },
    }
}

struct Parser {
    tokens: Vec<Token>,
    pos: usize,
}

impl Parser {
    spec fn toks(&self) -> Seq<TokenV> {
        tokens_view(self.tokens@)
    }

    fn error(&self, message: String) -> (r: ParserError)
        ensures
            r@ == parse_error(self.pos as int, message@),
    {
        ParserError::Parse { position: self.pos, message }
    }

    /// The error for a missing `what` here, reported after the token read.
    fn expected_failure(&self, what: &str) -> (r: ParserError)
        requires
            self.pos <= self.tokens@.len(),
        ensures
            r@ == expected_error(self.toks(), self.pos as int, what@),
    {
        let (position, found) = if self.pos < self.tokens.len() {
            let t = render_token(&self.tokens[self.pos]);
            (self.pos + 1, wrap("Some(", t.as_str(), ")"))
        } else {
            (self.pos, String::from_str("None"))
        };
        let mut m = String::from_str("expected ");
        m.append(what);
        m.append(", found ");
        m.append(found.as_str());
        ParserError::Parse { position, message: m }
    }

    fn peek_kind(&self, k: &Token) -> (r: bool)
        ensures
            r == kind_at(self.toks(), self.pos as int, k@),
            r ==> self.pos < self.tokens@.len(),
    {
        self.pos < self.tokens.len() && same_kind_exec(&self.tokens[self.pos], k)
    }

    fn at_keyword(&self, kw: &str) -> (r: bool)
        ensures
            r == keyword_at(self.toks(), self.pos as int, kw@),
            r ==> self.pos < self.tokens@.len(),
    {
        if self.pos < self.tokens.len() {
            match &self.tokens[self.pos] {
                Token::Ident(v) => eq_ignore_ascii_case(v.as_str(), kw),
                _ => false,
            }
        } else {
            false
        }
    }

    fn consume_token(&mut self, k: &Token) -> (r: bool)
        requires
            old(self).pos <= old(self).tokens@.len(),
        ensures
            final(self).tokens@ == old(self).tokens@,
            final(self).pos <= final(self).tokens@.len(),
            r == kind_at(old(self).toks(), old(self).pos as int, k@),
            final(self).pos == if r {
                old(self).pos + 1
            } else {
                old(self).pos as int
            },
    {
        let n = self.tokens.len();
        if self.pos < n && self.peek_kind(k) {
            self.pos = self.pos + 1;
            true
        } else {
            false
        }
    }

    fn consume_keyword(&mut self, kw: &str) -> (r: bool)
        requires
            old(self).pos <= old(self).tokens@.len(),
        ensures
            final(self).tokens@ == old(self).tokens@,
            final(self).pos <= final(self).tokens@.len(),
            r == keyword_at(old(self).toks(), old(self).pos as int, kw@),
            final(self).pos == if r {
                old(self).pos + 1
            } else {
                old(self).pos as int
            },
    {
        let n = self.tokens.len();
        if self.pos < n && self.at_keyword(kw) {
            self.pos = self.pos + 1;
            true
        } else {
            false
        }
    }

    fn expect_token(&mut self, k: &Token) -> (r: Result<(), ParserError>)
        requires
            old(self).pos <= old(self).tokens@.len(),
        ensures
            final(self).tokens@ == old(self).tokens@,
            final(self).pos <= final(self).tokens@.len(),
            match (r, expect_at(old(self).toks(), old(self).pos as int, k@)) {
                (Ok(_), Ok(q)) => final(self).pos == q,
                (Err(e), Err(f)) => e@ == f,
                _ => false,
            },
    {
        if self.consume_token(k) {
            Ok(())
        } else {
            let name = render_token(k);
            Err(self.error(concat_str("expected token ", name.as_str())))
        }
    }

    fn parse_ident(&mut self) -> (r: Result<String, ParserError>)
        requires
            old(self).pos <= old(self).tokens@.len(),
        ensures
            final(self).tokens@ == old(self).tokens@,
            final(self).pos <= final(self).tokens@.len(),
            match (r, ident_at(old(self).toks(), old(self).pos as int)) {
                (Ok(v), Ok((w, q))) => v@ == w && final(self).pos == q,
                (Err(e), Err(f)) => e@ == f,
                _ => false,
            },
    {
        if self.pos < self.tokens.len() {
            if let Token::Ident(v) = &self.tokens[self.pos] {
                let s = v.clone();
                self.pos = self.pos + 1;
                return Ok(s);
            }
        }
        Err(self.expected_failure("identifier"))
    }

    fn parse_string_literal(&mut self) -> (r: Result<String, ParserError>)
        requires
            old(self).pos <= old(self).tokens@.len(),
        ensures
            final(self).tokens@ == old(self).tokens@,
            final(self).pos <= final(self).tokens@.len(),
            match (r, string_at(old(self).toks(), old(self).pos as int)) {
                (Ok(v), Ok((w, q))) => v@ == w && final(self).pos == q,
                (Err(e), Err(f)) => e@ == f,
                _ => false,
            },
    {
        if self.pos < self.tokens.len() {
            if let Token::String(v) = &self.tokens[self.pos] {
                let s = v.clone();
                self.pos = self.pos + 1;
                return Ok(s);
            }
        }
        Err(self.expected_failure("string literal"))
    }

    fn parse_number(&mut self) -> (r: Result<NumberLiteral, ParserError>)
        requires
            old(self).pos <= old(self).tokens@.len(),
        ensures
            final(self).tokens@ == old(self).tokens@,
            final(self).pos <= final(self).tokens@.len(),
            match (r, number_at(old(self).toks(), old(self).pos as int)) {
                (Ok(v), Ok((w, q))) => v.text@ == w && final(self).pos == q,
                (Err(e), Err(f)) => e@ == f,
                _ => false,
            },
    {
        if self.pos < self.tokens.len() {
            if let Token::Number(n) = &self.tokens[self.pos] {
                let s = NumberLiteral { text: n.text.clone() };
                self.pos = self.pos + 1;
                return Ok(s);
            }
        }
        Err(self.expected_failure("number"))
    }

    fn parse_u64_number(&mut self) -> (r: Result<u64, ParserError>)
        requires
            old(self).pos <= old(self).tokens@.len(),
        ensures
            final(self).tokens@ == old(self).tokens@,
            final(self).pos <= final(self).tokens@.len(),
            match (r, u64_at(old(self).toks(), old(self).pos as int)) {
                (Ok(v), Ok((w, q))) => v == w && final(self).pos == q,
                (Err(e), Err(f)) => e@ == f,
                _ => false,
            },
    {
        let t = match self.parse_number() {
            Ok(t) => t,
            Err(e) => {
                return Err(e);
            },
        };
        match literal_whole_value(t.text.as_str()) {
            Some(v) => Ok(
                if v > u64::MAX as u128 {
                    u64::MAX
                } else {
                    v as u64
                },
            ),
            None => Err(
                self.error(
                    concat_str(
                        "expected integer number, got ",
                        literal_reading_text(t.text.as_str()).as_str(),
                    ),
                ),
            ),
        }
    }

    fn parse_literal(&mut self) -> (r: Result<Literal, ParserError>)
        requires
            old(self).pos <= old(self).tokens@.len(),
        ensures
            final(self).tokens@ == old(self).tokens@,
            final(self).pos <= final(self).tokens@.len(),
            match (r, literal_at(old(self).toks(), old(self).pos as int)) {
                (Ok(v), Ok((w, q))) => v@ == w && final(self).pos == q,
                (Err(e), Err(f)) => e@ == f,
                _ => false,
            },
    {
        if self.pos < self.tokens.len() {
            let lit = match &self.tokens[self.pos] {
                Token::String(v) => Some(Literal::String(v.clone())),
                Token::Number(n) => Some(Literal::Number(NumberLiteral { text: n.text.clone() })),
                Token::Ident(v) => {
                    if eq_ignore_ascii_case(v.as_str(), "true") {
                        Some(Literal::Bool(true))
                    } else if eq_ignore_ascii_case(v.as_str(), "false") {
                        Some(Literal::Bool(false))
                    } else {
                        Some(Literal::Ident(v.clone()))
                    }
                },
                _ => None,
            };
            if let Some(l) = lit {
                self.pos = self.pos + 1;
                return Ok(l);
            }
        }
        Err(self.expected_failure("literal"))
    }

    fn parse_predicate_op(&mut self) -> (r: Result<PredicateOp, ParserError>)
        requires
            old(self).pos <= old(self).tokens@.len(),
        ensures
            final(self).tokens@ == old(self).tokens@,
            final(self).pos <= final(self).tokens@.len(),
            match (r, op_at(old(self).toks(), old(self).pos as int)) {
                (Ok(v), Ok((w, q))) => v == w && final(self).pos == q,
                (Err(e), Err(f)) => e@ == f,
                _ => false,
            },
    {
        if self.pos < self.tokens.len() {
            let op = match &self.tokens[self.pos] {
                Token::EqEq => Some(PredicateOp::Eq),
                Token::Ne => Some(PredicateOp::Ne),
                Token::Lt => Some(PredicateOp::Lt),
                Token::Lte => Some(PredicateOp::Lte),
                Token::Gt => Some(PredicateOp::Gt),
                Token::Gte => Some(PredicateOp::Gte),
                _ => None,
            };
            if let Some(op) = op {
                self.pos = self.pos + 1;
                return Ok(op);
            }
        }
        Err(self.expected_failure("predicate operator"))
    }

    fn parse_sort_direction(&mut self) -> (r: SortDirection)
        requires
            old(self).pos <= old(self).tokens@.len(),
        ensures
            final(self).tokens@ == old(self).tokens@,
            final(self).pos <= final(self).tokens@.len(),
            (r, final(self).pos as int) == sort_direction_at(old(self).toks(), old(self).pos as int),
    {
        if self.consume_keyword("desc") {
            SortDirection::Desc
        } else {
            let _ = self.consume_keyword("asc");
            SortDirection::Asc
        }
    }

    fn parse_traversal_direction_if_any(&mut self) -> (r: Option<TraversalDirection>)
        requires
            old(self).pos <= old(self).tokens@.len(),
        ensures
            final(self).tokens@ == old(self).tokens@,
            final(self).pos <= final(self).tokens@.len(),
            r == direction_at(old(self).toks(), old(self).pos as int),
            final(self).pos == if r is Some {
                old(self).pos + 1
            } else {
                old(self).pos as int
            },
    {
        if self.consume_token(&Token::ArrowRight) {
            Some(TraversalDirection::Outbound)
        } else if self.consume_token(&Token::ArrowLeft) {
            Some(TraversalDirection::Inbound)
        } else {
            None
        }
    }

    fn parse_traversal_step(&mut self) -> (r: Result<TraversalStep, ParserError>)
        requires
            old(self).pos <= old(self).tokens@.len(),
        ensures
            final(self).tokens@ == old(self).tokens@,
            final(self).pos <= final(self).tokens@.len(),
            match (r, step_at(old(self).toks(), old(self).pos as int)) {
                (Ok(v), Ok((w, q))) => v@ == w && final(self).pos == q,
                (Err(e), Err(f)) => e@ == f,
                _ => false,
            },
    {
        let entity = match self.parse_ident() {
            Ok(v) => v,
            Err(e) => {
                return Err(e);
            },
        };
        if self.consume_token(&Token::LParen) {
            let id = match self.parse_literal() {
                Ok(v) => v,
                Err(e) => {
                    return Err(e);
                },
            };
            match self.expect_token(&Token::RParen) {
                Ok(_) => {},
                Err(e) => {
                    return Err(e);
                },
            }
            Ok(TraversalStep::EntityRef { entity, id })
        } else {
            Ok(TraversalStep::EntityScan(entity))
        }
    }

    fn parse_predicate(&mut self) -> (r: Result<Predicate, ParserError>)
        requires
            old(self).pos <= old(self).tokens@.len(),
        ensures
            final(self).tokens@ == old(self).tokens@,
            final(self).pos <= final(self).tokens@.len(),
            match (r, predicate_at(old(self).toks(), old(self).pos as int)) {
                (Ok(v), Ok((w, q))) => v@ == w && final(self).pos == q,
                (Err(e), Err(f)) => e@ == f,
                _ => false,
            },
    {
        if self.consume_keyword("meaning") {
            match self.expect_token(&Token::LParen) {
                Ok(_) => {},
                Err(e) => {
                    return Err(e);
                },
            }
            let query = match self.parse_string_literal() {
                Ok(v) => v,
                Err(e) => {
                    return Err(e);
                },
            };
            let threshold = if self.consume_token(&Token::Comma) {
                if !self.consume_keyword("threshold") {
                    return Err(self.error(String::from_str("expected keyword 'threshold'")));
                }
                match self.expect_token(&Token::Assign) {
                    Ok(_) => {},
                    Err(e) => {
                        return Err(e);
                    },
                }
                match self.parse_number() {
                    Ok(v) => Some(v),
                    Err(e) => {
                        return Err(e);
                    },
                }
            } else {
                None
            };
            match self.expect_token(&Token::RParen) {
                Ok(_) => {},
                Err(e) => {
                    return Err(e);
                },
            }
            return Ok(Predicate::Semantic { query, threshold });
        }
        let field = match self.parse_ident() {
            Ok(v) => v,
            Err(e) => {
                return Err(e);
            },
        };
        if self.consume_keyword("in") {
            let start = match self.parse_literal() {
                Ok(v) => v,
                Err(e) => {
                    return Err(e);
                },
            };
            match self.expect_token(&Token::DotDot) {
                Ok(_) => {},
                Err(e) => {
                    return Err(e);
                },
            }
            let end = match self.parse_literal() {
                Ok(v) => v,
                Err(e) => {
                    return Err(e);
                },
            };
            return Ok(Predicate::Range { field, start, end });
        }
        let op = match self.parse_predicate_op() {
            Ok(v) => v,
            Err(e) => {
                return Err(e);
            },
        };
        let value = match self.parse_literal() {
            Ok(v) => v,
            Err(e) => {
                return Err(e);
            },
        };
        Ok(Predicate::Field { field, op, value })
    }

    fn parse_optional_where_clause(&mut self) -> (r: Result<Vec<Predicate>, ParserError>)
        requires
            old(self).pos <= old(self).tokens@.len(),
        ensures
            final(self).tokens@ == old(self).tokens@,
            final(self).pos <= final(self).tokens@.len(),
            match (r, where_at(old(self).toks(), old(self).pos as int)) {
                (Ok(v), Ok((w, q))) => predicates_view(v@) == w && final(self).pos == q,
                (Err(e), Err(f)) => e@ == f,
                _ => false,
            },
    {
        let ghost ts = self.toks();
        let ghost target = where_at(ts, self.pos as int);
        if !self.consume_keyword("where") {
            let empty: Vec<Predicate> = Vec::new();
            assert(predicates_view(empty@) =~= Seq::<crate::ast::PredicateV>::empty());
            return Ok(empty);
        }
        let first = match self.parse_predicate() {
            Ok(v) => v,
            Err(e) => {
                return Err(e);
            },
        };
        let mut predicates: Vec<Predicate> = Vec::new();
        predicates.push(first);
        assert(predicates_view(predicates@) =~= seq![first@]);
        while self.at_keyword("and")
            invariant
                self.toks() == ts,
                self.tokens@ == old(self).tokens@,
                self.pos <= self.tokens@.len(),
                ts == old(self).toks(),
                target == where_at(old(self).toks(), old(self).pos as int),
                and_chain(ts, self.pos as int, predicates_view(predicates@)) == target,
            decreases self.tokens@.len() - self.pos,
        {
            let ghost before = predicates_view(predicates@);
            let n = self.tokens.len();
            assert(self.pos < n);
            self.pos = self.pos + 1;
            let next = match self.parse_predicate() {
                Ok(v) => v,
                Err(e) => {
                    return Err(e);
                },
            };
            predicates.push(next);
            assert(predicates_view(predicates@) =~= before.push(next@));
        }
        Ok(predicates)
    }

    fn parse_source(&mut self) -> (r: Result<QueryNode, ParserError>)
        requires
            old(self).pos <= old(self).tokens@.len(),
        ensures
            final(self).tokens@ == old(self).tokens@,
            final(self).pos <= final(self).tokens@.len(),
            match (r, source_at(old(self).toks(), old(self).pos as int)) {
                (Ok(v), Ok((w, q))) => v@ == w && final(self).pos == q,
                (Err(e), Err(f)) => e@ == f,
                _ => false,
            },
    {
        let ghost ts = self.toks();
        let first_step = match self.parse_traversal_step() {
            Ok(v) => v,
            Err(e) => {
                return Err(e);
            },
        };
        if let Some(first_dir) = self.parse_traversal_direction_if_any() {
            let second = match self.parse_traversal_step() {
                Ok(v) => v,
                Err(e) => {
                    return Err(e);
                },
            };
            let ghost hop_target = hops_from(
                ts,
                self.pos as int,
                seq![first_step@, second@],
                seq![first_dir],
            );
            let mut steps: Vec<TraversalStep> = Vec::new();
            steps.push(first_step);
            steps.push(second);
            let mut directions: Vec<TraversalDirection> = Vec::new();
            directions.push(first_dir);
            assert(steps_view(steps@) =~= seq![steps@[0]@, steps@[1]@]);
            assert(directions@ =~= seq![first_dir]);
            loop
                invariant
                    self.toks() == ts,
                    self.tokens@ == old(self).tokens@,
                    self.pos <= self.tokens@.len(),
                    hops_from(ts, self.pos as int, steps_view(steps@), directions@) == hop_target,
                    ts == old(self).toks(),
                    source_at(ts, old(self).pos as int) == source_after_hops(ts, hop_target),
                ensures
                    self.toks() == ts,
                    self.tokens@ == old(self).tokens@,
                    self.pos <= self.tokens@.len(),
                    hop_target == Ok::<_, crate::lexer::ParserErrorV>(
                        (steps_view(steps@), directions@, self.pos as int),
                    ),
                decreases self.tokens@.len() - self.pos,
            {
                let ghost before_steps = steps_view(steps@);
                let dir = match self.parse_traversal_direction_if_any() {
                    Some(d) => d,
                    None => {
                        break;
                    },
                };
                let step = match self.parse_traversal_step() {
                    Ok(v) => v,
                    Err(e) => {
                        return Err(e);
                    },
                };
                directions.push(dir);
                steps.push(step);
                assert(steps_view(steps@) =~= before_steps.push(step@));
            }
            let predicates = match self.parse_optional_where_clause() {
                Ok(v) => v,
                Err(e) => {
                    return Err(e);
                },
            };
            return Ok(QueryNode::Traversal { steps, directions, predicates });
        }
        let predicates = match self.parse_optional_where_clause() {
            Ok(v) => v,
            Err(e) => {
                return Err(e);
            },
        };
        match first_step {
            TraversalStep::EntityScan(entity) => Ok(QueryNode::EntityScan { entity, predicates }),
            TraversalStep::EntityRef { entity, id } => {
                let step = TraversalStep::EntityRef { entity, id };
                let mut steps: Vec<TraversalStep> = Vec::new();
                steps.push(step);
                let directions: Vec<TraversalDirection> = Vec::new();
                assert(steps_view(steps@) =~= seq![steps@[0]@]);
                assert(directions@ =~= Seq::<TraversalDirection>::empty());
                Ok(QueryNode::Traversal { steps, directions, predicates })
            },
        }
    }

    fn parse_parenthesized_field(&mut self) -> (r: Result<Option<String>, ParserError>)
        requires
            old(self).pos <= old(self).tokens@.len(),
        ensures
            final(self).tokens@ == old(self).tokens@,
            final(self).pos <= final(self).tokens@.len(),
            match (
                r,
                if kind_at(old(self).toks(), old(self).pos as int, TokenV::RParen) {
                    Ok::<_, crate::lexer::ParserErrorV>((None::<Seq<char>>, old(self).pos as int))
                } else {
                    match ident_at(old(self).toks(), old(self).pos as int) {
                        Err(e) => Err(e),
                        Ok((f, q)) => Ok((Some(f), q)),
                    }
                },
            ) {
                (Ok(v), Ok((w, q))) => crate::ast::optional_text(v) == w && final(self).pos == q,
                (Err(e), Err(f)) => e@ == f,
                _ => false,
            },
    {
        if self.peek_kind(&Token::RParen) {
            Ok(None)
        } else {
            match self.parse_ident() {
                Ok(v) => Ok(Some(v)),
                Err(e) => Err(e),
            }
        }
    }

    fn parse_transform(&mut self, source: QueryNode) -> (r: Result<QueryNode, ParserError>)
        requires
            old(self).pos <= old(self).tokens@.len(),
        ensures
            final(self).tokens@ == old(self).tokens@,
            final(self).pos <= final(self).tokens@.len(),
            match (r, transform_at(old(self).toks(), old(self).pos as int, source@)) {
                (Ok(v), Ok((w, q))) => v@ == w && final(self).pos == q,
                (Err(e), Err(f)) => e@ == f,
                _ => false,
            },
    {
        let name = match self.parse_ident() {
            Ok(v) => v,
            Err(e) => {
                return Err(e);
            },
        };
        if eq_ignore_ascii_case(name.as_str(), "sort") {
            match self.expect_token(&Token::LParen) {
                Ok(_) => {},
                Err(e) => {
                    return Err(e);
                },
            }
            let field = match self.parse_ident() {
                Ok(v) => v,
                Err(e) => {
                    return Err(e);
                },
            };
            let direction = self.parse_sort_direction();
            match self.expect_token(&Token::RParen) {
                Ok(_) => {},
                Err(e) => {
                    return Err(e);
                },
            }
            Ok(QueryNode::Sort { field, direction, source: Box::new(source) })
        } else if eq_ignore_ascii_case(name.as_str(), "top") {
            match self.expect_token(&Token::LParen) {
                Ok(_) => {},
                Err(e) => {
                    return Err(e);
                },
            }
            let k = match self.parse_u64_number() {
                Ok(v) => v,
                Err(e) => {
                    return Err(e);
                },
            };
            let order_by = if self.consume_token(&Token::Comma) {
                let field = match self.parse_ident() {
                    Ok(v) => v,
                    Err(e) => {
                        return Err(e);
                    },
                };
                let direction = self.parse_sort_direction();
                Some(OrderBy { field, direction })
            } else {
                None
            };
            match self.expect_token(&Token::RParen) {
                Ok(_) => {},
                Err(e) => {
                    return Err(e);
                },
            }
            Ok(QueryNode::TopK { k, order_by, source: Box::new(source) })
        } else if eq_ignore_ascii_case(name.as_str(), "group") {
            match self.expect_token(&Token::LParen) {
                Ok(_) => {},
                Err(e) => {
                    return Err(e);
                },
            }
            let field = match self.parse_ident() {
                Ok(v) => v,
                Err(e) => {
                    return Err(e);
                },
            };
            match self.expect_token(&Token::RParen) {
                Ok(_) => {},
                Err(e) => {
                    return Err(e);
                },
            }
            Ok(QueryNode::Group { field, source: Box::new(source) })
        } else if let Some(op) = aggregate_named_exec(name.as_str()) {
            match self.expect_token(&Token::LParen) {
                Ok(_) => {},
                Err(e) => {
                    return Err(e);
                },
            }
            let field = match self.parse_parenthesized_field() {
                Ok(v) => v,
                Err(e) => {
                    return Err(e);
                },
            };
            match self.expect_token(&Token::RParen) {
                Ok(_) => {},
                Err(e) => {
                    return Err(e);
                },
            }
            Ok(QueryNode::Aggregate { op, field, source: Box::new(source) })
        } else if eq_ignore_ascii_case(name.as_str(), "take") {
            match self.expect_token(&Token::LParen) {
                Ok(_) => {},
                Err(e) => {
                    return Err(e);
                },
            }
            let n = match self.parse_u64_number() {
                Ok(v) => v,
                Err(e) => {
                    return Err(e);
                },
            };
            match self.expect_token(&Token::RParen) {
                Ok(_) => {},
                Err(e) => {
                    return Err(e);
                },
            }
            Ok(QueryNode::Take { n, source: Box::new(source) })
        } else {
            Err(self.error(concat_str("unknown transform: ", name.as_str())))
        }
    }

    fn parse_query(&mut self) -> (r: Result<QueryAst, ParserError>)
        requires
            old(self).pos == 0,
        ensures
            match (r, query_of_tokens(old(self).toks())) {
                (Ok(v), Ok(w)) => v@ == w,
                (Err(e), Err(f)) => e@ == f,
                _ => false,
            },
    {
        let ghost ts = self.toks();
        let mode = if self.consume_keyword("watch") {
            QueryMode::Watch
        } else {
            QueryMode::Once
        };
        let mut root = match self.parse_source() {
            Ok(v) => v,
            Err(e) => {
                return Err(e);
            },
        };
        let ghost target = pipeline_from(ts, self.pos as int, root@);
        while self.peek_kind(&Token::Pipe)
            invariant
                self.toks() == ts,
                self.tokens@ == old(self).tokens@,
                self.pos <= self.tokens@.len(),
                pipeline_from(ts, self.pos as int, root@) == target,
                ts == old(self).toks(),
                query_of_tokens(ts) == query_after_pipeline(ts, mode, target),
            decreases self.tokens@.len() - self.pos,
        {
            let n = self.tokens.len();
            assert(self.pos < n);
            self.pos = self.pos + 1;
            root = match self.parse_transform(root) {
                Ok(v) => v,
                Err(e) => {
                    return Err(e);
                },
            };
        }
        if self.pos < self.tokens.len() {
            return Err(self.error(String::from_str("unexpected trailing tokens")));
        }
        Ok(QueryAst { mode, root })
    }
}

fn aggregate_named_exec(name: &str) -> (r: Option<AggregateOp>)
    ensures
        r == aggregate_named(name@),
{
    if eq_ignore_ascii_case(name, "count") {
        Some(AggregateOp::Count)
    } else if eq_ignore_ascii_case(name, "sum") {
        Some(AggregateOp::Sum)
    } else if eq_ignore_ascii_case(name, "avg") {
        Some(AggregateOp::Avg)
    } else if eq_ignore_ascii_case(name, "min") {
        Some(AggregateOp::Min)
    } else if eq_ignore_ascii_case(name, "max") {
        Some(AggregateOp::Max)
    } else {
        None
    }
}

/// Parses query text into its syntax tree.
pub fn parse_query(input: &str) -> (r: Result<QueryAst, ParserError>)
    ensures
        match (r, parse_query_spec(input@)) {
            (Ok(v), Ok(w)) => v@ == w,
            (Err(e), Err(f)) => e@ == f,
            _ => false,
        },
{
    let tokens = match lex(input) {
        Ok(ts) => ts,
        Err(e) => {
            return Err(e);
        },
    };
    let mut parser = Parser { tokens, pos: 0 };
    parser.parse_query()
}

} // verus!
