//! The grammar of the query language, stated over token values: what a
//! recursive-descent reading of a token sequence yields, position by position.
use vstd::prelude::*;

use crate::ast::{
    AggregateOp, LiteralV, OrderByV, PredicateOp, PredicateV, QueryAstV, QueryMode, QueryNodeV,
    SortDirection, TraversalDirection, TraversalStepV,
};
use crate::lexer::{digits_end, lex_spec, spelled_comparison, ParserErrorV, TokenV};
use crate::literal::{float_whole, reading_debug_text, reading_text, saturate_u64};

verus! {

// ----- characters and text -----
pub open spec fn is_upper(c: char) -> bool {
    'A' <= c && c <= 'Z'
}

/// Two characters equal up to ASCII case.
pub open spec fn char_eq_ignore_case(a: char, b: char) -> bool {
    ||| a == b
    ||| (is_upper(a) && (a as u32) + 32 == (b as u32))
    ||| (is_upper(b) && (b as u32) + 32 == (a as u32))
}

/// Two texts equal up to ASCII case (`str::eq_ignore_ascii_case`).
pub open spec fn eq_ignore_case(a: Seq<char>, b: Seq<char>) -> bool {
    &&& a.len() == b.len()
    &&& forall|i: int| 0 <= i < a.len() ==> char_eq_ignore_case(#[trigger] a[i], b[i])
}

/// How `Debug` writes one character inside a quoted string.
pub open spec fn escape_char(c: char) -> Seq<char> {
    if c == '"' {
        seq!['\\', '"']
    } else if c == '\\' {
        seq!['\\', '\\']
    } else if c == '\n' {
        seq!['\\', 'n']
    } else if c == '\t' {
        seq!['\\', 't']
    } else if c == '\r' {
        seq!['\\', 'r']
    } else if c == '\0' {
        seq!['\\', '0']
    } else {
        seq![c]
    }
}

pub open spec fn escape_text(s: Seq<char>) -> Seq<char>
    decreases s.len(),
{
    if s.len() == 0 {
        Seq::empty()
    } else {
        escape_text(s.drop_last()) + escape_char(s.last())
    }
}

/// A text in double quotes, as `Debug` writes a string.
pub open spec fn quoted(s: Seq<char>) -> Seq<char> {
    seq!['"'] + escape_text(s) + seq!['"']
}

/// How a token is named in diagnostics (its `Debug` form; a number by the
/// float it reads as).
pub open spec fn token_text(t: TokenV) -> Seq<char> {
    match t {
        TokenV::Ident(v) => "Ident("@ + quoted(v) + ")"@,
        TokenV::Str(v) => "String("@ + quoted(v) + ")"@,
        TokenV::Number(v) => "Number("@ + reading_debug_text(v) + ")"@,
        TokenV::LParen => "LParen"@,
        TokenV::RParen => "RParen"@,
        TokenV::Comma => "Comma"@,
        TokenV::Pipe => "Pipe"@,
        TokenV::ArrowRight => "ArrowRight"@,
        TokenV::ArrowLeft => "ArrowLeft"@,
        TokenV::EqEq => "EqEq"@,
        TokenV::Ne => "Ne"@,
        TokenV::Lt => "Lt"@,
        TokenV::Lte => "Lte"@,
        TokenV::Gt => "Gt"@,
        TokenV::Gte => "Gte"@,
        TokenV::DotDot => "DotDot"@,
        TokenV::Assign => "Assign"@,
    }
}

pub open spec fn found_text(t: Option<TokenV>) -> Seq<char> {
    match t {
        Some(t) => "Some("@ + token_text(t) + ")"@,
        None => "None"@,
    }
}

// ----- numbers -----
pub open spec fn digit_value(c: char) -> nat {
    if c == '1' {
        1
    } else if c == '2' {
        2
    } else if c == '3' {
        3
    } else if c == '4' {
        4
    } else if c == '5' {
        5
    } else if c == '6' {
        6
    } else if c == '7' {
        7
    } else if c == '8' {
        8
    } else if c == '9' {
        9
    } else {
        0
    }
}

/// The value of a run of decimal digits.
pub open spec fn digits_value(s: Seq<char>) -> nat
    decreases s.len(),
{
    if s.len() == 0 {
        0
    } else {
        digits_value(s.drop_last()) * 10 + digit_value(s.last())
    }
}

/// The digits of a number literal before its point.
pub open spec fn integer_part(t: Seq<char>) -> Seq<char> {
    t.take(digits_end(t, 0))
}

/// From position `i` on, the first digit of `t[..d]` that is not a leading
/// zero (the last digit always stays).
pub open spec fn leading_zeros_end(t: Seq<char>, i: int, d: int) -> int
    decreases d - i,
{
    if i + 1 < d && t[i] == '0' {
        leading_zeros_end(t, i + 1, d)
    } else {
        i
    }
}

/// The end of `t[lo..b]` once its trailing zeros are dropped.
pub open spec fn trailing_zeros_start(t: Seq<char>, lo: int, b: int) -> int
    decreases b - lo,
{
    if b > lo && t[b - 1] == '0' {
        trailing_zeros_start(t, lo, b - 1)
    } else {
        b
    }
}

/// A number literal as its decimal value reads: the integer digits without
/// leading zeros, then the point and the fractional digits without trailing
/// zeros, where any are left ("007.50" reads "7.5", "2.0" reads "2").
pub open spec fn number_display(t: Seq<char>) -> Seq<char> {
    let d = digits_end(t, 0);
    let a = leading_zeros_end(t, 0, d);
    if d < t.len() && trailing_zeros_start(t, d + 1, t.len() as int) > d + 1 {
        t.subrange(a, trailing_zeros_start(t, d + 1, t.len() as int))
    } else {
        t.subrange(a, d)
    }
}

// ----- reading single tokens -----
pub open spec fn token_at(ts: Seq<TokenV>, p: int) -> Option<TokenV> {
    if 0 <= p < ts.len() {
        Some(ts[p])
    } else {
        None
    }
}

/// Tokens of the same kind (for tokens without content: the same token).
pub open spec fn same_kind(a: TokenV, b: TokenV) -> bool {
    match (a, b) {
        (TokenV::Ident(_), TokenV::Ident(_)) => true,
        (TokenV::Str(_), TokenV::Str(_)) => true,
        (TokenV::Number(_), TokenV::Number(_)) => true,
        _ => a == b,
    }
}

pub open spec fn kind_at(ts: Seq<TokenV>, p: int, k: TokenV) -> bool {
    0 <= p < ts.len() && same_kind(ts[p], k)
}

/// The token at `p` is the identifier `kw`, up to ASCII case.
pub open spec fn keyword_at(ts: Seq<TokenV>, p: int, kw: Seq<char>) -> bool {
    0 <= p < ts.len() && (ts[p] matches TokenV::Ident(v) && eq_ignore_case(v, kw))
}

pub open spec fn parse_error(p: int, m: Seq<char>) -> ParserErrorV {
    ParserErrorV::Parse { position: p as usize, message: m }
}

/// The error for a missing `what` at `p`: it is reported after the token read.
pub open spec fn expected_error(ts: Seq<TokenV>, p: int, what: Seq<char>) -> ParserErrorV {
    let q = if 0 <= p < ts.len() {
        p + 1
    } else {
        p
    };
    parse_error(q, "expected "@ + what + ", found "@ + found_text(token_at(ts, p)))
}

pub open spec fn expect_at(ts: Seq<TokenV>, p: int, k: TokenV) -> Result<int, ParserErrorV> {
    if kind_at(ts, p, k) {
        Ok(p + 1)
    } else {
        Err(parse_error(p, "expected token "@ + token_text(k)))
    }
}

pub open spec fn ident_at(ts: Seq<TokenV>, p: int) -> Result<(Seq<char>, int), ParserErrorV> {
    match token_at(ts, p) {
        Some(TokenV::Ident(v)) => Ok((v, p + 1)),
        _ => Err(expected_error(ts, p, "identifier"@)),
    }
}

pub open spec fn string_at(ts: Seq<TokenV>, p: int) -> Result<(Seq<char>, int), ParserErrorV> {
    match token_at(ts, p) {
        Some(TokenV::Str(v)) => Ok((v, p + 1)),
        _ => Err(expected_error(ts, p, "string literal"@)),
    }
}

pub open spec fn number_at(ts: Seq<TokenV>, p: int) -> Result<(Seq<char>, int), ParserErrorV> {
    match token_at(ts, p) {
        Some(TokenV::Number(v)) => Ok((v, p + 1)),
        _ => Err(expected_error(ts, p, "number"@)),
    }
}

pub open spec fn u64_at(ts: Seq<TokenV>, p: int) -> Result<(u64, int), ParserErrorV> {
    match number_at(ts, p) {
        Err(e) => Err(e),
        Ok((t, q)) => match float_whole(t) {
            Some(v) => Ok((saturate_u64(v), q)),
            None => Err(parse_error(q, "expected integer number, got "@ + reading_text(t))),
        },
    }
}

pub open spec fn literal_at(ts: Seq<TokenV>, p: int) -> Result<(LiteralV, int), ParserErrorV> {
    match token_at(ts, p) {
        Some(TokenV::Str(v)) => Ok((LiteralV::String(v), p + 1)),
        Some(TokenV::Number(v)) => Ok((LiteralV::Number(v), p + 1)),
        Some(TokenV::Ident(v)) => Ok(
            (
                if eq_ignore_case(v, "true"@) {
                    LiteralV::Bool(true)
                } else if eq_ignore_case(v, "false"@) {
                    LiteralV::Bool(false)
                } else {
                    LiteralV::Ident(v)
                },
                p + 1,
            ),
        ),
        _ => Err(expected_error(ts, p, "literal"@)),
    }
}

pub open spec fn op_at(ts: Seq<TokenV>, p: int) -> Result<(PredicateOp, int), ParserErrorV> {
    match token_at(ts, p) {
        Some(TokenV::EqEq) => Ok((PredicateOp::Eq, p + 1)),
        Some(TokenV::Ne) => Ok((PredicateOp::Ne, p + 1)),
        Some(TokenV::Lt) => Ok((PredicateOp::Lt, p + 1)),
        Some(TokenV::Lte) => Ok((PredicateOp::Lte, p + 1)),
        Some(TokenV::Gt) => Ok((PredicateOp::Gt, p + 1)),
        Some(TokenV::Gte) => Ok((PredicateOp::Gte, p + 1)),
        _ => Err(expected_error(ts, p, "predicate operator"@)),
    }
}

/// An optional `desc` / `asc` keyword; ascending when absent.
pub open spec fn sort_direction_at(ts: Seq<TokenV>, p: int) -> (SortDirection, int) {
    if keyword_at(ts, p, "desc"@) {
        (SortDirection::Desc, p + 1)
    } else if keyword_at(ts, p, "asc"@) {
        (SortDirection::Asc, p + 1)
    } else {
        (SortDirection::Asc, p)
    }
}

pub open spec fn direction_at(ts: Seq<TokenV>, p: int) -> Option<TraversalDirection> {
    if kind_at(ts, p, TokenV::ArrowRight) {
        Some(TraversalDirection::Outbound)
    } else if kind_at(ts, p, TokenV::ArrowLeft) {
        Some(TraversalDirection::Inbound)
    } else {
        None
    }
}

// ----- phrases -----
/// `Entity` or `Entity(id)`.
pub open spec fn step_at(ts: Seq<TokenV>, p: int) -> Result<(TraversalStepV, int), ParserErrorV> {
    match ident_at(ts, p) {
        Err(e) => Err(e),
        Ok((entity, q)) => if kind_at(ts, q, TokenV::LParen) {
            match literal_at(ts, q + 1) {
                Err(e) => Err(e),
                Ok((id, r)) => match expect_at(ts, r, TokenV::RParen) {
                    Err(e) => Err(e),
                    Ok(s) => Ok((TraversalStepV::EntityRef { entity, id }, s)),
                },
            }
        } else {
            Ok((TraversalStepV::EntityScan(entity), q))
        },
    }
}

/// `meaning("text")`, `meaning("text", threshold = n)`, `field in a..b` or
/// `field op value`.
pub open spec fn predicate_at(ts: Seq<TokenV>, p: int) -> Result<(PredicateV, int), ParserErrorV> {
    if keyword_at(ts, p, "meaning"@) {
        match expect_at(ts, p + 1, TokenV::LParen) {
            Err(e) => Err(e),
            Ok(p2) => match string_at(ts, p2) {
                Err(e) => Err(e),
                Ok((query, p3)) => if kind_at(ts, p3, TokenV::Comma) {
                    if keyword_at(ts, p3 + 1, "threshold"@) {
                        match expect_at(ts, p3 + 2, TokenV::Assign) {
                            Err(e) => Err(e),
                            Ok(p4) => match number_at(ts, p4) {
                                Err(e) => Err(e),
                                Ok((t, p5)) => match expect_at(ts, p5, TokenV::RParen) {
                                    Err(e) => Err(e),
                                    Ok(p6) => Ok(
                                        (PredicateV::Semantic { query, threshold: Some(t) }, p6),
                                    ),
                                },
                            },
                        }
                    } else {
                        Err(parse_error(p3 + 1, "expected keyword 'threshold'"@))
                    }
                } else {
                    match expect_at(ts, p3, TokenV::RParen) {
                        Err(e) => Err(e),
                        Ok(p6) => Ok((PredicateV::Semantic { query, threshold: None }, p6)),
                    }
                },
            },
        }
    } else {
        match ident_at(ts, p) {
            Err(e) => Err(e),
            Ok((field, q)) => if keyword_at(ts, q, "in"@) {
                match literal_at(ts, q + 1) {
                    Err(e) => Err(e),
                    Ok((start, r)) => match expect_at(ts, r, TokenV::DotDot) {
                        Err(e) => Err(e),
                        Ok(s) => match literal_at(ts, s) {
                            Err(e) => Err(e),
                            Ok((end, u)) => Ok((PredicateV::Range { field, start, end }, u)),
                        },
                    },
                }
            } else {
                match op_at(ts, q) {
                    Err(e) => Err(e),
                    Ok((op, r)) => match literal_at(ts, r) {
                        Err(e) => Err(e),
                        Ok((value, s)) => Ok((PredicateV::Field { field, op, value }, s)),
                    },
                }
            },
        }
    }
}

pub proof fn lemma_step_at_advances(ts: Seq<TokenV>, p: int)
    requires
        0 <= p <= ts.len(),
    ensures
        step_at(ts, p) matches Ok((_, q)) ==> p < q <= ts.len(),
{
}

pub proof fn lemma_predicate_at_advances(ts: Seq<TokenV>, p: int)
    requires
        0 <= p <= ts.len(),
    ensures
        predicate_at(ts, p) matches Ok((_, q)) ==> p < q <= ts.len(),
{
}

/// Further predicates, each after `and`, following those in `acc`.
pub open spec fn and_chain(ts: Seq<TokenV>, p: int, acc: Seq<PredicateV>) -> Result<
    (Seq<PredicateV>, int),
    ParserErrorV,
>
    decreases ts.len() - p,
{
    if 0 <= p && keyword_at(ts, p, "and"@) {
        match predicate_at(ts, p + 1) {
            Err(e) => Err(e),
            Ok((pr, q)) => {
                proof {
                    lemma_predicate_at_advances(ts, p + 1);
                }
                and_chain(ts, q, acc.push(pr))
            },
        }
    } else {
        Ok((acc, p))
    }
}

/// An optional `where` clause: predicates joined by `and`.
pub open spec fn where_at(ts: Seq<TokenV>, p: int) -> Result<(Seq<PredicateV>, int), ParserErrorV> {
    if !keyword_at(ts, p, "where"@) {
        Ok((Seq::empty(), p))
    } else {
        match predicate_at(ts, p + 1) {
            Err(e) => Err(e),
            Ok((first, q)) => and_chain(ts, q, seq![first]),
        }
    }
}

/// Further hops `-> Step` / `<- Step` after the steps and directions read so far.
pub open spec fn hops_from(
    ts: Seq<TokenV>,
    p: int,
    steps: Seq<TraversalStepV>,
    dirs: Seq<TraversalDirection>,
) -> Result<(Seq<TraversalStepV>, Seq<TraversalDirection>, int), ParserErrorV>
    decreases ts.len() - p,
{
    if 0 <= p {
        match direction_at(ts, p) {
            None => Ok((steps, dirs, p)),
            Some(d) => match step_at(ts, p + 1) {
                Err(e) => Err(e),
                Ok((st, q)) => {
                    proof {
                        lemma_step_at_advances(ts, p + 1);
                    }
                    hops_from(ts, q, steps.push(st), dirs.push(d))
                },
            },
        }
    } else {
        Ok((steps, dirs, p))
    }
}

/// The source of a query: an entity scan or a traversal, with its `where` clause.
pub open spec fn source_at(ts: Seq<TokenV>, p: int) -> Result<(QueryNodeV, int), ParserErrorV> {
    match step_at(ts, p) {
        Err(e) => Err(e),
        Ok((first, q)) => match direction_at(ts, q) {
            Some(d) => match step_at(ts, q + 1) {
                Err(e) => Err(e),
                Ok((second, r)) => match hops_from(ts, r, seq![first, second], seq![d]) {
                    Err(e) => Err(e),
                    Ok((steps, directions, s)) => match where_at(ts, s) {
                        Err(e) => Err(e),
                        Ok((predicates, u)) => Ok(
                            (QueryNodeV::Traversal { steps, directions, predicates }, u),
                        ),
                    },
                },
            },
            None => match where_at(ts, q) {
                Err(e) => Err(e),
                Ok((predicates, u)) => match first {
                    TraversalStepV::EntityScan(entity) => Ok(
                        (QueryNodeV::EntityScan { entity, predicates }, u),
                    ),
                    TraversalStepV::EntityRef { .. } => Ok(
                        (
                            QueryNodeV::Traversal {
                                steps: seq![first],
                                directions: Seq::empty(),
                                predicates,
                            },
                            u,
                        ),
                    ),
                },
            },
        },
    }
}

/// The aggregate named by a transform, if it names one.
pub open spec fn aggregate_named(name: Seq<char>) -> Option<AggregateOp> {
    if eq_ignore_case(name, "count"@) {
        Some(AggregateOp::Count)
    } else if eq_ignore_case(name, "sum"@) {
        Some(AggregateOp::Sum)
    } else if eq_ignore_case(name, "avg"@) {
        Some(AggregateOp::Avg)
    } else if eq_ignore_case(name, "min"@) {
        Some(AggregateOp::Min)
    } else if eq_ignore_case(name, "max"@) {
        Some(AggregateOp::Max)
    } else {
        None
    }
}

/// A transform applied to `source`: `sort(f [asc|desc])`, `top(k [, f [asc|desc]])`,
/// `group(f)`, `count|sum|avg|min|max([f])` or `take(n)`.
pub open spec fn transform_at(ts: Seq<TokenV>, p: int, source: QueryNodeV) -> Result<
    (QueryNodeV, int),
    ParserErrorV,
> {
    match ident_at(ts, p) {
        Err(e) => Err(e),
        Ok((name, q)) => if eq_ignore_case(name, "sort"@) {
            match expect_at(ts, q, TokenV::LParen) {
                Err(e) => Err(e),
                Ok(q1) => match ident_at(ts, q1) {
                    Err(e) => Err(e),
                    Ok((field, q2)) => {
                        let (direction, q3) = sort_direction_at(ts, q2);
                        match expect_at(ts, q3, TokenV::RParen) {
                            Err(e) => Err(e),
                            Ok(q4) => Ok(
                                (
                                    QueryNodeV::Sort {
                                        field,
                                        direction,
                                        source: Box::new(source),
                                    },
                                    q4,
                                ),
                            ),
                        }
                    },
                },
            }
        } else if eq_ignore_case(name, "top"@) {
            match expect_at(ts, q, TokenV::LParen) {
                Err(e) => Err(e),
                Ok(q1) => match u64_at(ts, q1) {
                    Err(e) => Err(e),
                    Ok((k, q2)) => {
                        let ordered: Result<(Option<OrderByV>, int), ParserErrorV> = if kind_at(
                            ts,
                            q2,
                            TokenV::Comma,
                        ) {
                            match ident_at(ts, q2 + 1) {
                                Err(e) => Err(e),
                                Ok((field, q3)) => {
                                    let (direction, q4) = sort_direction_at(ts, q3);
                                    Ok((Some(OrderByV { field, direction }), q4))
                                },
                            }
                        } else {
                            Ok((None, q2))
                        };
                        match ordered {
                            Err(e) => Err(e),
                            Ok((order_by, q5)) => match expect_at(ts, q5, TokenV::RParen) {
                                Err(e) => Err(e),
                                Ok(q6) => Ok(
                                    (QueryNodeV::TopK { k, order_by, source: Box::new(source) }, q6),
                                ),
                            },
                        }
                    },
                },
            }
        } else if eq_ignore_case(name, "group"@) {
            match expect_at(ts, q, TokenV::LParen) {
                Err(e) => Err(e),
                Ok(q1) => match ident_at(ts, q1) {
                    Err(e) => Err(e),
                    Ok((field, q2)) => match expect_at(ts, q2, TokenV::RParen) {
                        Err(e) => Err(e),
                        Ok(q3) => Ok((QueryNodeV::Group { field, source: Box::new(source) }, q3)),
                    },
                },
            }
        } else if aggregate_named(name) is Some {
            match expect_at(ts, q, TokenV::LParen) {
                Err(e) => Err(e),
                Ok(q1) => {
                    let field: Result<(Option<Seq<char>>, int), ParserErrorV> = if kind_at(
                        ts,
                        q1,
                        TokenV::RParen,
                    ) {
                        Ok((None, q1))
                    } else {
                        match ident_at(ts, q1) {
                            Err(e) => Err(e),
                            Ok((f, q2)) => Ok((Some(f), q2)),
                        }
                    };
                    match field {
                        Err(e) => Err(e),
                        Ok((field, q3)) => match expect_at(ts, q3, TokenV::RParen) {
                            Err(e) => Err(e),
                            Ok(q4) => Ok(
                                (
                                    QueryNodeV::Aggregate {
                                        op: aggregate_named(name)->Some_0,
                                        field,
                                        source: Box::new(source),
                                    },
                                    q4,
                                ),
                            ),
                        },
                    }
                },
            }
        } else if eq_ignore_case(name, "take"@) {
            match expect_at(ts, q, TokenV::LParen) {
                Err(e) => Err(e),
                Ok(q1) => match u64_at(ts, q1) {
                    Err(e) => Err(e),
                    Ok((n, q2)) => match expect_at(ts, q2, TokenV::RParen) {
                        Err(e) => Err(e),
                        Ok(q3) => Ok((QueryNodeV::Take { n, source: Box::new(source) }, q3)),
                    },
                },
            }
        } else {
            Err(parse_error(q, "unknown transform: "@ + name))
        },
    }
}

pub proof fn lemma_transform_at_advances(ts: Seq<TokenV>, p: int, source: QueryNodeV)
    requires
        0 <= p <= ts.len(),
    ensures
        transform_at(ts, p, source) matches Ok((_, q)) ==> p < q <= ts.len(),
{
}

/// Transforms, each after `|`, applied in turn to `root`.
pub open spec fn pipeline_from(ts: Seq<TokenV>, p: int, root: QueryNodeV) -> Result<
    (QueryNodeV, int),
    ParserErrorV,
>
    decreases ts.len() - p,
{
    if 0 <= p && kind_at(ts, p, TokenV::Pipe) {
        match transform_at(ts, p + 1, root) {
            Err(e) => Err(e),
            Ok((node, q)) => {
                proof {
                    lemma_transform_at_advances(ts, p + 1, root);
                }
                pipeline_from(ts, q, node)
            },
        }
    } else {
        Ok((root, p))
    }
}

/// A whole query: `[watch] source (| transform)*`, with nothing after it.
pub open spec fn query_of_tokens(ts: Seq<TokenV>) -> Result<QueryAstV, ParserErrorV> {
    let watch = keyword_at(ts, 0, "watch"@);
    let mode = if watch {
        QueryMode::Watch
    } else {
        QueryMode::Once
    };
    let start: int = if watch {
        1
    } else {
        0
    };
    match source_at(ts, start) {
        Err(e) => Err(e),
        Ok((source, q)) => match pipeline_from(ts, q, source) {
            Err(e) => Err(e),
            Ok((root, r)) => if r < ts.len() {
                Err(parse_error(r, "unexpected trailing tokens"@))
            } else {
                Ok(QueryAstV { mode, root })
            },
        },
    }
}

/// What parsing query text gives: its syntax tree, or the first lexing or
/// parsing error.
pub open spec fn parse_query_spec(input: Seq<char>) -> Result<QueryAstV, ParserErrorV> {
    match lex_spec(input) {
        Err(e) => Err(e),
        Ok(ts) => query_of_tokens(ts),
    }
}

/// The operator of a predicate is the comparison its token spells: read at
/// any position, an operator token gives the operator that asks of every field
/// value and literal exactly what the token spells, and moves one token on; a
/// token that spells no comparison is refused.
pub proof fn lemma_operator_is_the_spelled_comparison(ts: Seq<TokenV>, p: int)
    ensures
        match op_at(ts, p) {
            Ok((op, q)) => {
                &&& q == p + 1
                &&& 0 <= p < ts.len()
                &&& forall|x: int, v: int| #[trigger]
                    spelled_comparison(ts[p], x, v) == Some(op.compares(x, v))
            },
            Err(_) => !(0 <= p < ts.len()) || spelled_comparison(ts[p], 0, 0) is None,
        },
{
}

} // verus!
