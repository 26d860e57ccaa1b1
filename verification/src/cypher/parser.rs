//! Cypher-Lite recursive-descent parser.
//!
//! Parses the Cypher-Lite subset only. Unsupported constructs route to
//! `CypherError::Unsupported`; syntax errors carry byte spans.

use vstd::prelude::*;
use crate::cypher::ast::{
    BinOp, Direction, Expr, ExprV, Lit, LitV, MatchClause, NodePat, NodePatV, OrderBy, OrderItem,
    OrderItemV, Pattern, PatternV, Query, QueryV, RelPat, RelPatV, ReturnClause, ReturnExpr,
    ReturnExprV, ReturnItem, ReturnItemV, UnaryOp, opt_str_view, order_items_view, props_view,
    return_items_view, strs_view,
};
use crate::cypher::error::{CypherError, UnsupportedError};
use crate::cypher::lexer::{
    LexResult, Spanned, SpannedV, Token, TokenV, is_parse_error, spanned_views, spec_tokenize,
    tokenize, tokenize_defined,
};
use crate::cypher::scope::Unsupported;
use crate::text::{debug_escaped, push_debug_str, push_i64, spec_i64_text};

verus! {

/// The Rust `Debug` form of a token: the variant's name, with a literal's
/// or identifier's value in brackets (strings quoted and escaped).
pub open spec fn spec_token_debug(t: TokenV) -> Seq<char> {
    match t {
        TokenV::Match => "Match"@,
        TokenV::Where => "Where"@,
        TokenV::Return => "Return"@,
        TokenV::Order => "Order"@,
        TokenV::By => "By"@,
        TokenV::Limit => "Limit"@,
        TokenV::Skip => "Skip"@,
        TokenV::Distinct => "Distinct"@,
        TokenV::And => "And"@,
        TokenV::Or => "Or"@,
        TokenV::Not => "Not"@,
        TokenV::Is => "Is"@,
        TokenV::Null => "Null"@,
        TokenV::Contains => "Contains"@,
        TokenV::Starts => "Starts"@,
        TokenV::Ends => "Ends"@,
        TokenV::With => "With"@,
        TokenV::As => "As"@,
        TokenV::Asc => "Asc"@,
        TokenV::Desc => "Desc"@,
        TokenV::True => "True"@,
        TokenV::False => "False"@,
        TokenV::In => "In"@,
        TokenV::Unwind => "Unwind"@,
        TokenV::Merge => "Merge"@,
        TokenV::Create => "Create"@,
        TokenV::Delete => "Delete"@,
        TokenV::SetKeyword => "Set"@,
        TokenV::Remove => "Remove"@,
        TokenV::Optional => "Optional"@,
        TokenV::LParen => "LParen"@,
        TokenV::RParen => "RParen"@,
        TokenV::LBracket => "LBracket"@,
        TokenV::RBracket => "RBracket"@,
        TokenV::LBrace => "LBrace"@,
        TokenV::RBrace => "RBrace"@,
        TokenV::Comma => "Comma"@,
        TokenV::Dot => "Dot"@,
        TokenV::Colon => "Colon"@,
        TokenV::Semicolon => "Semicolon"@,
        TokenV::Minus => "Minus"@,
        TokenV::Star => "Star"@,
        TokenV::Pipe => "Pipe"@,
        TokenV::Arrow => "Arrow"@,
        TokenV::LeftArrow => "LeftArrow"@,
        TokenV::DoubleDash => "DoubleDash"@,
        TokenV::Lt => "Lt"@,
        TokenV::Gt => "Gt"@,
        TokenV::Le => "Le"@,
        TokenV::Ge => "Ge"@,
        TokenV::Eq => "Eq"@,
        TokenV::Neq => "Neq"@,
        TokenV::RegexEq => "RegexEq"@,
        TokenV::StringLit(v) => "StringLit("@ + seq!['"'] + debug_escaped(v) + seq!['"'] + ")"@,
        TokenV::FloatLit(v) => "FloatLit("@ + v + ")"@,
        TokenV::Ident(v) => "Ident("@ + seq!['"'] + debug_escaped(v) + seq!['"'] + ")"@,
        TokenV::IntLit(i) => "IntLit("@ + spec_i64_text(i) + ")"@,
    }
}

/// Rust-`Debug`-style rendering of a token, used in parse error messages.
pub fn token_debug(t: &Token) -> (s: String)
    ensures
        s@ == spec_token_debug(t@),
{
    match t {
        Token::Match => String::from_str("Match"),
        Token::Where => String::from_str("Where"),
        Token::Return => String::from_str("Return"),
        Token::Order => String::from_str("Order"),
        Token::By => String::from_str("By"),
        Token::Limit => String::from_str("Limit"),
        Token::Skip => String::from_str("Skip"),
        Token::Distinct => String::from_str("Distinct"),
        Token::And => String::from_str("And"),
        Token::Or => String::from_str("Or"),
        Token::Not => String::from_str("Not"),
        Token::Is => String::from_str("Is"),
        Token::Null => String::from_str("Null"),
        Token::Contains => String::from_str("Contains"),
        Token::Starts => String::from_str("Starts"),
        Token::Ends => String::from_str("Ends"),
        Token::With => String::from_str("With"),
        Token::As => String::from_str("As"),
        Token::Asc => String::from_str("Asc"),
        Token::Desc => String::from_str("Desc"),
        Token::True => String::from_str("True"),
        Token::False => String::from_str("False"),
        Token::In => String::from_str("In"),
        Token::Unwind => String::from_str("Unwind"),
        Token::Merge => String::from_str("Merge"),
        Token::Create => String::from_str("Create"),
        Token::Delete => String::from_str("Delete"),
        Token::SetKeyword => String::from_str("Set"),
        Token::Remove => String::from_str("Remove"),
        Token::Optional => String::from_str("Optional"),
        Token::LParen => String::from_str("LParen"),
        Token::RParen => String::from_str("RParen"),
        Token::LBracket => String::from_str("LBracket"),
        Token::RBracket => String::from_str("RBracket"),
        Token::LBrace => String::from_str("LBrace"),
        Token::RBrace => String::from_str("RBrace"),
        Token::Comma => String::from_str("Comma"),
        Token::Dot => String::from_str("Dot"),
        Token::Colon => String::from_str("Colon"),
        Token::Semicolon => String::from_str("Semicolon"),
        Token::Minus => String::from_str("Minus"),
        Token::Star => String::from_str("Star"),
        Token::Pipe => String::from_str("Pipe"),
        Token::Arrow => String::from_str("Arrow"),
        Token::LeftArrow => String::from_str("LeftArrow"),
        Token::DoubleDash => String::from_str("DoubleDash"),
        Token::Lt => String::from_str("Lt"),
        Token::Gt => String::from_str("Gt"),
        Token::Le => String::from_str("Le"),
        Token::Ge => String::from_str("Ge"),
        Token::Eq => String::from_str("Eq"),
        Token::Neq => String::from_str("Neq"),
        Token::RegexEq => String::from_str("RegexEq"),
        Token::StringLit(v) => {
            let mut s = String::from_str("StringLit(");
            push_debug_str(&mut s, v.as_str());
            s.append(")");
            s
        },
        Token::FloatLit(v) => {
            let mut s = String::from_str("FloatLit(");
            s.append(v.as_str());
            s.append(")");
            s
        },
        Token::Ident(v) => {
            let mut s = String::from_str("Ident(");
            push_debug_str(&mut s, v.as_str());
            s.append(")");
            s
        },
        Token::IntLit(i) => {
            let mut s = String::from_str("IntLit(");
            push_i64(&mut s, *i);
            s.append(")");
            s
        },
    }
}
// ---------------------------------------------------------------------------
// The grammar, as functions on token sequences
// ---------------------------------------------------------------------------

/// A parse failure: a syntax error at a byte span, or an out-of-scope feature.
pub enum PErr {
    Syntax(int, int, Seq<char>),
    Scope(Unsupported),
}

pub open spec fn tok(ts: Seq<SpannedV>, p: int) -> Option<TokenV> {
    if 0 <= p < ts.len() {
        Some(ts[p].token)
    } else {
        None
    }
}

pub open spec fn at(ts: Seq<SpannedV>, p: int, t: TokenV) -> bool {
    tok(ts, p) == Some(t)
}

/// The span of the token at `p`, or `(0, 0)` past the end.
pub open spec fn span_at(ts: Seq<SpannedV>, p: int) -> (int, int) {
    if 0 <= p < ts.len() {
        (ts[p].start, ts[p].end)
    } else {
        (0, 0)
    }
}

pub open spec fn syntax(ts: Seq<SpannedV>, p: int, msg: Seq<char>) -> PErr {
    PErr::Syntax(span_at(ts, p).0, span_at(ts, p).1, msg)
}

/// How the token at `p` is named in a message: its `Debug` form, or
/// "end of query".
pub open spec fn got_text(ts: Seq<SpannedV>, p: int) -> Seq<char> {
    match tok(ts, p) {
        Some(t) => spec_token_debug(t),
        None => "end of query"@,
    }
}

/// The message "expected <what>, got <token at p>".
pub open spec fn expected_msg(ts: Seq<SpannedV>, p: int, what: Seq<char>) -> Seq<char> {
    "expected "@ + what + ", got "@ + got_text(ts, p)
}

/// The syntax error "expected <what>, got ..." at `p`.
pub open spec fn expected_at(ts: Seq<SpannedV>, p: int, what: Seq<char>) -> PErr {
    syntax(ts, p, expected_msg(ts, p, what))
}

/// The syntax error for a missing token `t` at `p`.
pub open spec fn missing_at(ts: Seq<SpannedV>, p: int, t: TokenV) -> PErr {
    expected_at(ts, p, spec_token_debug(t))
}

/// Whether `e` is the error that `pe` describes.
pub open spec fn err_matches(e: CypherError, pe: PErr) -> bool {
    match pe {
        PErr::Syntax(a, b, m) => e matches CypherError::Parse { msg, span, span_start } && msg@ == m && span.0 == a
            && span.1 == b && span_start == a,
        PErr::Scope(u) => e == CypherError::Unsupported(UnsupportedError(u)),
    }
}

/// A name: an identifier, or one of the keywords that commonly appear as
/// property or variable names.
pub open spec fn p_name(ts: Seq<SpannedV>, p: int) -> Result<(Seq<char>, int), PErr> {
    match tok(ts, p) {
        Some(TokenV::Ident(s)) => Ok((s, p + 1)),
        Some(TokenV::Match) => Ok(("match"@, p + 1)),
        Some(TokenV::With) => Ok(("with"@, p + 1)),
        Some(TokenV::In) => Ok(("in"@, p + 1)),
        Some(TokenV::Asc) => Ok(("ASC"@, p + 1)),
        Some(TokenV::Desc) => Ok(("DESC"@, p + 1)),
        _ => Err(expected_at(ts, p, "identifier"@)),
    }
}

pub open spec fn p_lit_opt(ts: Seq<SpannedV>, p: int) -> Option<(LitV, int)> {
    match tok(ts, p) {
        Some(TokenV::IntLit(i)) => Some((LitV::Int(i), p + 1)),
        Some(TokenV::FloatLit(s)) => Some((LitV::Float(s), p + 1)),
        Some(TokenV::StringLit(s)) => Some((LitV::Str(s), p + 1)),
        Some(TokenV::True) => Some((LitV::Bool(true), p + 1)),
        Some(TokenV::False) => Some((LitV::Bool(false), p + 1)),
        Some(TokenV::Null) => Some((LitV::Null, p + 1)),
        _ => None,
    }
}

pub open spec fn p_int(ts: Seq<SpannedV>, p: int) -> Result<(i64, int), PErr> {
    match tok(ts, p) {
        Some(TokenV::IntLit(i)) => Ok((i, p + 1)),
        _ => Err(expected_at(ts, p, "integer literal"@)),
    }
}

/// The `key: literal, ...` entries of a property map, from `p` up to the
/// closing brace (or the end, or the first entry not followed by a comma).
pub open spec fn p_props_loop(ts: Seq<SpannedV>, p: int, acc: Seq<(Seq<char>, LitV)>) -> Result<
    (Seq<(Seq<char>, LitV)>, int),
    PErr,
>
    decreases ts.len() - p,
{
    if p < 0 || p >= ts.len() || at(ts, p, TokenV::RBrace) {
        Ok((acc, p))
    } else {
        match p_name(ts, p) {
            Err(e) => Err(e),
            Ok((k, q)) => if !at(ts, q, TokenV::Colon) {
                Err(missing_at(ts, q, TokenV::Colon))
            } else {
                match p_lit_opt(ts, q + 1) {
                    None => Err(expected_at(ts, q + 1, "literal value"@)),
                    Some((v, r)) => {
                        let acc2 = acc.push((k, v));
                        if at(ts, r, TokenV::Comma) && p < r + 1 <= ts.len() {
                            p_props_loop(ts, r + 1, acc2)
                        } else {
                            Ok((acc2, r))
                        }
                    },
                }
            },
        }
    }
}

pub open spec fn p_prop_map(ts: Seq<SpannedV>, p: int) -> Result<(Seq<(Seq<char>, LitV)>, int), PErr> {
    if !at(ts, p, TokenV::LBrace) {
        Err(missing_at(ts, p, TokenV::LBrace))
    } else {
        match p_props_loop(ts, p + 1, Seq::empty()) {
            Err(e) => Err(e),
            Ok((props, r)) => if at(ts, r, TokenV::RBrace) {
                Ok((props, r + 1))
            } else {
                Err(missing_at(ts, r, TokenV::RBrace))
            },
        }
    }
}

/// An optional variable name at `p`.
pub open spec fn p_var(ts: Seq<SpannedV>, p: int) -> (Option<Seq<char>>, int) {
    match tok(ts, p) {
        Some(TokenV::Ident(s)) => (Some(s), p + 1),
        _ => (None, p),
    }
}

pub open spec fn p_node_pat(ts: Seq<SpannedV>, p: int) -> Result<(NodePatV, int), PErr> {
    if !at(ts, p, TokenV::LParen) {
        Err(missing_at(ts, p, TokenV::LParen))
    } else {
        let (var, q1) = p_var(ts, p + 1);
        let lab: Result<(Option<Seq<char>>, int), PErr> = if at(ts, q1, TokenV::Colon) {
            match p_name(ts, q1 + 1) {
                Ok((n, r)) => Ok((Some(n), r)),
                Err(e) => Err(e),
            }
        } else {
            Ok((None, q1))
        };
        match lab {
            Err(e) => Err(e),
            Ok((label, q2)) => {
                let pr = if at(ts, q2, TokenV::LBrace) {
                    p_prop_map(ts, q2)
                } else {
                    Ok((Seq::empty(), q2))
                };
                match pr {
                    Err(e) => Err(e),
                    Ok((props, q3)) => if at(ts, q3, TokenV::RParen) {
                        Ok((NodePatV { var, label, properties: props }, q3 + 1))
                    } else {
                        Err(missing_at(ts, q3, TokenV::RParen))
                    },
                }
            },
        }
    }
}

pub open spec fn p_types_loop(ts: Seq<SpannedV>, p: int, acc: Seq<Seq<char>>) -> Result<
    (Seq<Seq<char>>, int),
    PErr,
>
    decreases ts.len() - p,
{
    if at(ts, p, TokenV::Pipe) {
        let q = if at(ts, p + 1, TokenV::Colon) { p + 2 } else { p + 1 };
        match p_name(ts, q) {
            Ok((n, r)) => if p < r <= ts.len() {
                p_types_loop(ts, r, acc.push(n))
            } else {
                Err(PErr::Syntax(0, 0, Seq::empty()))
            },
            Err(e) => Err(e),
        }
    } else {
        Ok((acc, p))
    }
}

pub open spec fn p_rel_types(ts: Seq<SpannedV>, p: int) -> Result<(Seq<Seq<char>>, int), PErr> {
    match p_name(ts, p) {
        Ok((n, q)) => p_types_loop(ts, q, seq![n]),
        Err(e) => Err(e),
    }
}

pub open spec fn bare_rel(d: Direction) -> RelPatV {
    RelPatV { var: None, types: Seq::empty(), direction: d, properties: Seq::empty() }
}

/// The optional `[var:TYPES {props}]` body of a relationship at `q`.
pub open spec fn p_rel_bracket(ts: Seq<SpannedV>, q: int) -> Result<
    (Option<Seq<char>>, Seq<Seq<char>>, Seq<(Seq<char>, LitV)>, int),
    PErr,
> {
    if !at(ts, q, TokenV::LBracket) {
        Ok((None, Seq::empty(), Seq::empty(), q))
    } else if at(ts, q + 1, TokenV::Star) {
        Err(PErr::Scope(Unsupported::VariableLengthPath))
    } else {
        let (var, q2) = p_var(ts, q + 1);
        if at(ts, q2, TokenV::Star) {
            Err(PErr::Scope(Unsupported::VariableLengthPath))
        } else {
            let tr = if at(ts, q2, TokenV::Colon) {
                p_rel_types(ts, q2 + 1)
            } else {
                Ok((Seq::empty(), q2))
            };
            match tr {
                Err(e) => Err(e),
                Ok((types, q3)) => if at(ts, q3, TokenV::Star) {
                    Err(PErr::Scope(Unsupported::VariableLengthPath))
                } else {
                    let pr = if at(ts, q3, TokenV::LBrace) {
                        p_prop_map(ts, q3)
                    } else {
                        Ok((Seq::empty(), q3))
                    };
                    match pr {
                        Err(e) => Err(e),
                        Ok((props, q4)) => if at(ts, q4, TokenV::RBracket) {
                            Ok((var, types, props, q4 + 1))
                        } else {
                            Err(missing_at(ts, q4, TokenV::RBracket))
                        },
                    }
                },
            }
        }
    }
}

/// A relationship whose prefix (`<-` followed by `[`, or `-`) ends before `q`.
pub open spec fn p_rel_body(ts: Seq<SpannedV>, q: int, prefix: Direction) -> Result<(RelPatV, int), PErr> {
    match p_rel_bracket(ts, q) {
        Err(e) => Err(e),
        Ok((var, types, props, r)) => {
            let (dir, end) = if prefix == Direction::RightToLeft {
                (Direction::RightToLeft, if at(ts, r, TokenV::Minus) { r + 1 } else { r })
            } else if at(ts, r, TokenV::Arrow) {
                (Direction::LeftToRight, r + 1)
            } else {
                (Direction::Undirected, if at(ts, r, TokenV::Minus) { r + 1 } else { r })
            };
            Ok((RelPatV { var, types, direction: dir, properties: props }, end))
        },
    }
}

pub open spec fn p_rel_pat(ts: Seq<SpannedV>, p: int) -> Result<(RelPatV, int), PErr> {
    match tok(ts, p) {
        Some(TokenV::Arrow) => Ok((bare_rel(Direction::LeftToRight), p + 1)),
        Some(TokenV::LeftArrow) => if at(ts, p + 1, TokenV::LBracket) {
            p_rel_body(ts, p + 1, Direction::RightToLeft)
        } else {
            Ok((bare_rel(Direction::RightToLeft), p + 1))
        },
        Some(TokenV::DoubleDash) => Ok((bare_rel(Direction::Undirected), p + 1)),
        Some(TokenV::Minus) => p_rel_body(ts, p + 1, Direction::Undirected),
        _ => Err(syntax(ts, p, "expected relationship pattern"@)),
    }
}

pub open spec fn is_rel_start(t: Option<TokenV>) -> bool {
    t == Some(TokenV::Arrow) || t == Some(TokenV::LeftArrow) || t == Some(TokenV::DoubleDash) || t
        == Some(TokenV::Minus)
}

pub open spec fn p_segments(ts: Seq<SpannedV>, p: int, acc: Seq<(RelPatV, NodePatV)>) -> Result<
    (Seq<(RelPatV, NodePatV)>, int),
    PErr,
>
    decreases ts.len() - p,
{
    if is_rel_start(tok(ts, p)) {
        match p_rel_pat(ts, p) {
            Err(e) => Err(e),
            Ok((rel, q)) => match p_node_pat(ts, q) {
                Err(e) => Err(e),
                Ok((node, r)) => if p < r <= ts.len() {
                    p_segments(ts, r, acc.push((rel, node)))
                } else {
                    Err(PErr::Syntax(0, 0, Seq::empty()))
                },
            },
        }
    } else {
        Ok((acc, p))
    }
}

pub open spec fn p_pattern(ts: Seq<SpannedV>, p: int) -> Result<(PatternV, int), PErr> {
    if tok(ts, p) matches Some(TokenV::Ident(_)) && at(ts, p + 1, TokenV::Eq) {
        Err(PErr::Scope(Unsupported::PathVariable))
    } else {
        match p_node_pat(ts, p) {
            Err(e) => Err(e),
            Ok((head, q)) => match p_segments(ts, q, Seq::empty()) {
                Err(e) => Err(e),
                Ok((segments, r)) => Ok((PatternV { head, segments }, r)),
            },
        }
    }
}

pub open spec fn bin(l: ExprV, op: BinOp, r: ExprV) -> ExprV {
    ExprV::Binary(Box::new(l), op, Box::new(r))
}

/// `or`: `and (OR and)*`
pub open spec fn p_or(ts: Seq<SpannedV>, p: int) -> Result<(ExprV, int), PErr>
    decreases ts.len() - p, 4int,
{
    match p_and(ts, p) {
        Err(e) => Err(e),
        Ok((l, q)) => if p < q <= ts.len() {
            p_or_rest(ts, q, l)
        } else {
            Err(PErr::Syntax(0, 0, Seq::empty()))
        },
    }
}

pub open spec fn p_or_rest(ts: Seq<SpannedV>, q: int, l: ExprV) -> Result<(ExprV, int), PErr>
    decreases ts.len() - q, 5int,
{
    if at(ts, q, TokenV::Or) {
        match p_and(ts, q + 1) {
            Err(e) => Err(e),
            Ok((r, s)) => if q < s <= ts.len() {
                p_or_rest(ts, s, bin(l, BinOp::Or, r))
            } else {
                Err(PErr::Syntax(0, 0, Seq::empty()))
            },
        }
    } else {
        Ok((l, q))
    }
}

/// `and`: `not (AND not)*`
pub open spec fn p_and(ts: Seq<SpannedV>, p: int) -> Result<(ExprV, int), PErr>
    decreases ts.len() - p, 3int,
{
    match p_not(ts, p) {
        Err(e) => Err(e),
        Ok((l, q)) => if p < q <= ts.len() {
            p_and_rest(ts, q, l)
        } else {
            Err(PErr::Syntax(0, 0, Seq::empty()))
        },
    }
}

pub open spec fn p_and_rest(ts: Seq<SpannedV>, q: int, l: ExprV) -> Result<(ExprV, int), PErr>
    decreases ts.len() - q, 5int,
{
    if at(ts, q, TokenV::And) {
        match p_not(ts, q + 1) {
            Err(e) => Err(e),
            Ok((r, s)) => if q < s <= ts.len() {
                p_and_rest(ts, s, bin(l, BinOp::And, r))
            } else {
                Err(PErr::Syntax(0, 0, Seq::empty()))
            },
        }
    } else {
        Ok((l, q))
    }
}

/// `not`: `NOT not | comparison`
pub open spec fn p_not(ts: Seq<SpannedV>, p: int) -> Result<(ExprV, int), PErr>
    decreases ts.len() - p, 2int,
{
    if at(ts, p, TokenV::Not) {
        match p_not(ts, p + 1) {
            Err(e) => Err(e),
            Ok((x, q)) => Ok((ExprV::Unary(UnaryOp::Not, Box::new(x)), q)),
        }
    } else {
        p_comparison(ts, p)
    }
}

pub open spec fn comparison_op(t: Option<TokenV>) -> Option<BinOp> {
    match t {
        Some(TokenV::Eq) => Some(BinOp::Eq),
        Some(TokenV::Neq) => Some(BinOp::Neq),
        Some(TokenV::Lt) => Some(BinOp::Lt),
        Some(TokenV::Gt) => Some(BinOp::Gt),
        Some(TokenV::Le) => Some(BinOp::Le),
        Some(TokenV::Ge) => Some(BinOp::Ge),
        Some(TokenV::RegexEq) => Some(BinOp::Regex),
        _ => None,
    }
}

/// A primary followed by `IS [NOT] NULL`, a string predicate or a comparison.
pub open spec fn p_comparison(ts: Seq<SpannedV>, p: int) -> Result<(ExprV, int), PErr>
    decreases ts.len() - p, 1int,
{
    match p_primary(ts, p) {
        Err(e) => Err(e),
        Ok((l, q)) => if !(p < q <= ts.len()) {
            Err(PErr::Syntax(0, 0, Seq::empty()))
        } else if at(ts, q, TokenV::Is) {
            let neg = at(ts, q + 1, TokenV::Not);
            let q2 = if neg { q + 2 } else { q + 1 };
            if !at(ts, q2, TokenV::Null) {
                Err(syntax(ts, q2, "expected NULL after IS [NOT]"@))
            } else {
                Ok((ExprV::IsNull(Box::new(l), neg), q2 + 1))
            }
        } else if at(ts, q, TokenV::Contains) {
            match p_primary(ts, q + 1) {
                Err(e) => Err(e),
                Ok((r, s)) => Ok((bin(l, BinOp::Contains, r), s)),
            }
        } else if at(ts, q, TokenV::Starts) {
            if !at(ts, q + 1, TokenV::With) {
                Err(syntax(ts, q + 1, "expected WITH after STARTS"@))
            } else {
                match p_primary(ts, q + 2) {
                    Err(e) => Err(e),
                    Ok((r, s)) => Ok((bin(l, BinOp::StartsWith, r), s)),
                }
            }
        } else if at(ts, q, TokenV::Ends) {
            if !at(ts, q + 1, TokenV::With) {
                Err(syntax(ts, q + 1, "expected WITH after ENDS"@))
            } else {
                match p_primary(ts, q + 2) {
                    Err(e) => Err(e),
                    Ok((r, s)) => Ok((bin(l, BinOp::EndsWith, r), s)),
                }
            }
        } else if at(ts, q, TokenV::In) {
            Err(PErr::Scope(Unsupported::Function))
        } else {
            match comparison_op(tok(ts, q)) {
                None => Ok((l, q)),
                Some(op) => match p_primary(ts, q + 1) {
                    Err(e) => Err(e),
                    Ok((r, s)) => Ok((bin(l, op, r), s)),
                },
            }
        }
    }
}

/// A parenthesised expression, a literal, `NOT ...`, `var`, or `var.prop`.
pub open spec fn p_primary(ts: Seq<SpannedV>, p: int) -> Result<(ExprV, int), PErr>
    decreases ts.len() - p, 0int,
{
    if at(ts, p, TokenV::LParen) {
        match p_or(ts, p + 1) {
            Err(e) => Err(e),
            Ok((e, q)) => if at(ts, q, TokenV::RParen) {
                Ok((e, q + 1))
            } else {
                Err(missing_at(ts, q, TokenV::RParen))
            },
        }
    } else {
        match p_lit_opt(ts, p) {
            Some((l, q)) => Ok((ExprV::Lit(l), q)),
            None => if at(ts, p, TokenV::Not) {
                match p_not(ts, p + 1) {
                    Err(e) => Err(e),
                    Ok((x, q)) => Ok((ExprV::Unary(UnaryOp::Not, Box::new(x)), q)),
                }
            } else {
                match tok(ts, p) {
                    Some(TokenV::Ident(name)) => if at(ts, p + 1, TokenV::Dot) {
                        match p_name(ts, p + 2) {
                            Ok((prop, q)) => Ok((ExprV::Prop(name, prop), q)),
                            Err(e) => Err(e),
                        }
                    } else if at(ts, p + 1, TokenV::LParen) {
                        Err(PErr::Scope(Unsupported::Function))
                    } else {
                        Ok((ExprV::Id(name), p + 1))
                    },
                    _ => Err(expected_at(ts, p, "expression"@)),
                }
            },
        }
    }
}

pub open spec fn p_return_expr(ts: Seq<SpannedV>, p: int) -> Result<(ReturnExprV, int), PErr> {
    match tok(ts, p) {
        Some(TokenV::Ident(name)) => if at(ts, p + 1, TokenV::Dot) {
            match p_name(ts, p + 2) {
                Ok((prop, q)) => Ok((ReturnExprV::Prop(name, prop), q)),
                Err(e) => Err(e),
            }
        } else if at(ts, p + 1, TokenV::LParen) {
            Err(PErr::Scope(Unsupported::Function))
        } else {
            Ok((ReturnExprV::Var(name), p + 1))
        },
        _ => Err(expected_at(ts, p, "return expression"@)),
    }
}

pub open spec fn p_return_item(ts: Seq<SpannedV>, p: int) -> Result<(ReturnItemV, int), PErr> {
    match p_return_expr(ts, p) {
        Err(e) => Err(e),
        Ok((expr, q)) => if at(ts, q, TokenV::As) {
            match p_name(ts, q + 1) {
                Ok((a, r)) => Ok((ReturnItemV { expr, alias: Some(a) }, r)),
                Err(e) => Err(e),
            }
        } else {
            Ok((ReturnItemV { expr, alias: None }, q))
        },
    }
}

pub open spec fn p_items_loop(ts: Seq<SpannedV>, p: int, acc: Seq<ReturnItemV>) -> Result<
    (Seq<ReturnItemV>, int),
    PErr,
>
    decreases ts.len() - p,
{
    if at(ts, p, TokenV::Comma) {
        match p_return_item(ts, p + 1) {
            Err(e) => Err(e),
            Ok((it, q)) => if p < q <= ts.len() {
                p_items_loop(ts, q, acc.push(it))
            } else {
                Err(PErr::Syntax(0, 0, Seq::empty()))
            },
        }
    } else {
        Ok((acc, p))
    }
}

pub open spec fn p_return_clause(ts: Seq<SpannedV>, p: int) -> Result<(Seq<ReturnItemV>, int), PErr> {
    match p_return_item(ts, p) {
        Err(e) => Err(e),
        Ok((it, q)) => p_items_loop(ts, q, seq![it]),
    }
}

pub open spec fn p_order_item(ts: Seq<SpannedV>, p: int) -> Result<(OrderItemV, int), PErr> {
    match p_return_expr(ts, p) {
        Err(e) => Err(e),
        Ok((expr, q)) => if at(ts, q, TokenV::Desc) {
            Ok((OrderItemV { expr, descending: true }, q + 1))
        } else if at(ts, q, TokenV::Asc) {
            Ok((OrderItemV { expr, descending: false }, q + 1))
        } else {
            Ok((OrderItemV { expr, descending: false }, q))
        },
    }
}

pub open spec fn p_order_loop(ts: Seq<SpannedV>, p: int, acc: Seq<OrderItemV>) -> Result<
    (Seq<OrderItemV>, int),
    PErr,
>
    decreases ts.len() - p,
{
    if at(ts, p, TokenV::Comma) {
        match p_order_item(ts, p + 1) {
            Err(e) => Err(e),
            Ok((it, q)) => if p < q <= ts.len() {
                p_order_loop(ts, q, acc.push(it))
            } else {
                Err(PErr::Syntax(0, 0, Seq::empty()))
            },
        }
    } else {
        Ok((acc, p))
    }
}

pub open spec fn p_order_by(ts: Seq<SpannedV>, p: int) -> Result<(Seq<OrderItemV>, int), PErr> {
    match p_order_item(ts, p) {
        Err(e) => Err(e),
        Ok((it, q)) => p_order_loop(ts, q, seq![it]),
    }
}

/// The out-of-scope feature a token at index `i` stands for, if any. `WITH`
/// right after `STARTS` or `ENDS` is a predicate keyword, not a clause.
pub open spec fn forbidden_at(ts: Seq<SpannedV>, i: int) -> Option<Unsupported> {
    match ts[i].token {
        TokenV::With => if i > 0 && (ts[i - 1].token == TokenV::Starts || ts[i - 1].token == TokenV::Ends) {
            None
        } else {
            Some(Unsupported::With)
        },
        TokenV::Unwind => Some(Unsupported::Unwind),
        TokenV::Merge => Some(Unsupported::Merge),
        TokenV::Create => Some(Unsupported::Create),
        TokenV::Delete => Some(Unsupported::Delete),
        TokenV::SetKeyword => Some(Unsupported::SetClause),
        TokenV::Remove => Some(Unsupported::Remove),
        TokenV::Optional => Some(Unsupported::OptionalMatch),
        _ => None,
    }
}

/// The first out-of-scope keyword at or after index `i`.
pub open spec fn first_forbidden(ts: Seq<SpannedV>, i: int) -> Option<Unsupported>
    decreases ts.len() - i,
{
    if i < 0 || i >= ts.len() {
        None
    } else {
        match forbidden_at(ts, i) {
            Some(u) => Some(u),
            None => first_forbidden(ts, i + 1),
        }
    }
}

pub open spec fn p_match_loop(ts: Seq<SpannedV>, p: int, acc: Seq<PatternV>) -> Result<
    (Seq<PatternV>, int),
    PErr,
>
    decreases ts.len() - p,
{
    if at(ts, p, TokenV::Match) {
        match p_pattern(ts, p + 1) {
            Err(e) => Err(e),
            Ok((pat, q)) => if p < q <= ts.len() {
                p_match_loop(ts, q, acc.push(pat))
            } else {
                Err(PErr::Syntax(0, 0, Seq::empty()))
            },
        }
    } else {
        Ok((acc, p))
    }
}

/// An optional `WHERE expr` at `p1`.
pub open spec fn p_where(ts: Seq<SpannedV>, p1: int) -> Result<(Option<ExprV>, int), PErr> {
    if at(ts, p1, TokenV::Where) {
        match p_or(ts, p1 + 1) {
            Ok((e, q)) => Ok((Some(e), q)),
            Err(e) => Err(e),
        }
    } else {
        Ok((None, p1))
    }
}

/// An optional `ORDER BY items` at `p5`.
pub open spec fn p_opt_order(ts: Seq<SpannedV>, p5: int) -> Result<(Option<Seq<OrderItemV>>, int), PErr> {
    if at(ts, p5, TokenV::Order) {
        if !at(ts, p5 + 1, TokenV::By) {
            Err(syntax(ts, p5 + 1, "expected BY after ORDER"@))
        } else {
            match p_order_by(ts, p5 + 2) {
                Ok((o, q)) => Ok((Some(o), q)),
                Err(e) => Err(e),
            }
        }
    } else {
        Ok((None, p5))
    }
}

/// An optional `kw integer` at `p` (for SKIP and LIMIT).
pub open spec fn p_opt_int(ts: Seq<SpannedV>, p: int, kw: TokenV) -> Result<(Option<i64>, int), PErr> {
    if at(ts, p, kw) {
        match p_int(ts, p + 1) {
            Ok((v, q)) => Ok((Some(v), q)),
            Err(e) => Err(e),
        }
    } else {
        Ok((None, p))
    }
}

/// What follows the RETURN items: ORDER BY, SKIP, LIMIT and an optional `;`.
pub open spec fn p_query_end(
    ts: Seq<SpannedV>,
    clauses: Seq<PatternV>,
    where_clause: Option<ExprV>,
    distinct: bool,
    items: Seq<ReturnItemV>,
    p5: int,
) -> Result<(QueryV, int), PErr> {
    match p_opt_order(ts, p5) {
        Err(e) => Err(e),
        Ok((order_by, p6)) => match p_opt_int(ts, p6, TokenV::Skip) {
            Err(e) => Err(e),
            Ok((skip, p7)) => match p_opt_int(ts, p7, TokenV::Limit) {
                Err(e) => Err(e),
                Ok((limit, p8)) => {
                    let p9 = if at(ts, p8, TokenV::Semicolon) { p8 + 1 } else { p8 };
                    Ok((QueryV { match_clauses: clauses, where_clause, return_items: items, order_by, skip, limit, distinct }, p9))
                },
            },
        },
    }
}

/// The tail of a query after its MATCH clauses, from `p1`.
pub open spec fn p_query_tail(ts: Seq<SpannedV>, clauses: Seq<PatternV>, p1: int) -> Result<(QueryV, int), PErr> {
    match p_where(ts, p1) {
        Err(e) => Err(e),
        Ok((where_clause, p2)) => if !at(ts, p2, TokenV::Return) {
            Err(syntax(ts, p2, "expected RETURN clause"@))
        } else {
            let distinct = at(ts, p2 + 1, TokenV::Distinct);
            let p4 = if distinct { p2 + 2 } else { p2 + 1 };
            match p_return_clause(ts, p4) {
                Err(e) => Err(e),
                Ok((items, p5)) => p_query_end(ts, clauses, where_clause, distinct, items, p5),
            }
        },
    }
}

/// A whole query from the start of the token stream.
pub open spec fn p_query(ts: Seq<SpannedV>) -> Result<(QueryV, int), PErr> {
    match first_forbidden(ts, 0) {
        Some(u) => Err(PErr::Scope(u)),
        None => if !at(ts, 0, TokenV::Match) {
            Err(syntax(ts, 0, "query must start with MATCH"@))
        } else {
            match p_match_loop(ts, 0, Seq::empty()) {
                Err(e) => Err(e),
                Ok((clauses, p1)) => p_query_tail(ts, clauses, p1),
            }
        },
    }
}

/// The message for tokens left after a complete query.
pub open spec fn trailing_msg(ts: Seq<SpannedV>, p: int) -> Seq<char> {
    "unexpected token after query end: "@ + match tok(ts, p) {
        Some(t) => "Some("@ + spec_token_debug(t) + ")"@,
        None => "None"@,
    }
}

/// What parsing a query string yields.
pub enum ParseOutcome {
    Parsed(QueryV),
    LexError(Seq<char>, int, int),
    Failed(PErr),
}

/// The parse of a query string: lexing, then the grammar, then a check that
/// nothing follows the query.
pub open spec fn spec_parse(q: Seq<char>) -> ParseOutcome {
    match spec_tokenize(q) {
        LexResult::Tokens(ts) => match p_query(ts) {
            Ok((qv, p)) => if p >= ts.len() {
                ParseOutcome::Parsed(qv)
            } else {
                ParseOutcome::Failed(syntax(ts, p, trailing_msg(ts, p)))
            },
            Err(e) => ParseOutcome::Failed(e),
        },
        LexResult::Error(m, s, e) => ParseOutcome::LexError(m, s, e),
        LexResult::Panic => ParseOutcome::LexError(Seq::empty(), 0, 0),
    }
}
// ---------------------------------------------------------------------------
// Parser state
// ---------------------------------------------------------------------------

struct Parser<'a> {
    tokens: &'a [Spanned<Token>],
    pos: usize,
}

impl<'a> Parser<'a> {
    spec fn ts(&self) -> Seq<SpannedV> {
        spanned_views(self.tokens@)
    }

    spec fn wf(&self) -> bool {
        self.pos <= self.tokens@.len()
    }

    fn is_at_end(&self) -> (b: bool)
        ensures
            b == (self.pos >= self.tokens@.len()),
    {
        self.pos >= self.tokens.len()
    }

    fn check(&self, t: &Token) -> (b: bool)
        ensures
            b == at(self.ts(), self.pos as int, t@),
    {
        if self.pos < self.tokens.len() {
            self.tokens[self.pos].token.same_as(t)
        } else {
            false
        }
    }

    fn check_next(&self, t: &Token) -> (b: bool)
        ensures
            b == at(self.ts(), self.pos + 1, t@),
    {
        if self.pos < self.tokens.len() && self.tokens.len() - self.pos > 1 {
            self.tokens[self.pos + 1].token.same_as(t)
        } else {
            false
        }
    }

    fn advance(&mut self)
        requires
            old(self).pos < old(self).tokens@.len(),
        ensures
            final(self).tokens == old(self).tokens,
            final(self).pos == old(self).pos + 1,
    {
        if self.pos < self.tokens.len() {
            self.pos = self.pos + 1;
        }
    }

    fn eat(&mut self, t: &Token) -> (b: bool)
        requires
            old(self).wf(),
        ensures
            final(self).tokens == old(self).tokens,
            final(self).wf(),
            b == at(old(self).ts(), old(self).pos as int, t@),
            final(self).pos == old(self).pos + if b { 1int } else { 0int },
    {
        if self.check(t) {
            self.advance();
            true
        } else {
            false
        }
    }

    fn peek(&self) -> (r: Option<Token>)
        ensures
            match r {
                Some(t) => tok(self.ts(), self.pos as int) == Some(t@),
                None => tok(self.ts(), self.pos as int) is None,
            },
    {
        if self.pos < self.tokens.len() {
            Some(self.tokens[self.pos].token.duplicate())
        } else {
            None
        }
    }

    fn current_span(&self) -> (s: (usize, usize))
        ensures
            s.0 == span_at(self.ts(), self.pos as int).0,
            s.1 == span_at(self.ts(), self.pos as int).1,
    {
        if self.pos < self.tokens.len() {
            self.tokens[self.pos].span()
        } else {
            (0, 0)
        }
    }

    /// A syntax error at the current token.
    fn error_here(&self, msg: String) -> (e: CypherError)
        ensures
            err_matches(e, syntax(self.ts(), self.pos as int, msg@)),
    {
        CypherError::parse(msg, self.current_span())
    }

    /// "expected X, got Y" at the current token.
    fn expected_error(&self, what: &str) -> (e: CypherError)
        ensures
            err_matches(e, expected_at(self.ts(), self.pos as int, what@)),
    {
        let mut m = String::from_str("expected ");
        m.append(what);
        m.append(", got ");
        match self.peek() {
            Some(t) => {
                let d = token_debug(&t);
                m.append(d.as_str());
            },
            None => {
                m.append("end of query");
            },
        }
        self.error_here(m)
    }

    fn expect(&mut self, t: &Token) -> (r: Result<(), CypherError>)
        requires
            old(self).wf(),
        ensures
            final(self).tokens == old(self).tokens,
            final(self).wf(),
            old(self).pos <= final(self).pos,
            match r {
                Ok(_) => at(old(self).ts(), old(self).pos as int, t@) && final(self).pos == old(self).pos + 1,
                Err(e) => !at(old(self).ts(), old(self).pos as int, t@) && err_matches(
                    e,
                    missing_at(old(self).ts(), old(self).pos as int, t@),
                ),
            },
    {
        if self.check(t) {
            self.advance();
            Ok(())
        } else {
            let d = token_debug(t);
            Err(self.expected_error(d.as_str()))
        }
    }

    fn expect_name(&mut self) -> (r: Result<String, CypherError>)
        requires
            old(self).wf(),
        ensures
            final(self).tokens == old(self).tokens,
            final(self).wf(),
            old(self).pos <= final(self).pos,
            match r {
                Ok(s) => p_name(old(self).ts(), old(self).pos as int) == Ok::<_, PErr>((s@, final(self).pos as int)),
                Err(e) => p_name(old(self).ts(), old(self).pos as int) matches Err(pe) && err_matches(e, pe),
            },
    {
        match self.peek() {
            Some(Token::Ident(s)) => {
                self.advance();
                Ok(s)
            },
            Some(Token::Match) => {
                self.advance();
                Ok(String::from_str("match"))
            },
            Some(Token::With) => {
                self.advance();
                Ok(String::from_str("with"))
            },
            Some(Token::In) => {
                self.advance();
                Ok(String::from_str("in"))
            },
            Some(Token::Asc) => {
                self.advance();
                Ok(String::from_str("ASC"))
            },
            Some(Token::Desc) => {
                self.advance();
                Ok(String::from_str("DESC"))
            },
            _ => Err(self.expected_error("identifier")),
        }
    }

    fn try_parse_literal(&mut self) -> (r: Option<Lit>)
        requires
            old(self).wf(),
        ensures
            final(self).tokens == old(self).tokens,
            final(self).wf(),
            old(self).pos <= final(self).pos,
            match r {
                Some(l) => p_lit_opt(old(self).ts(), old(self).pos as int) == Some((l@, final(self).pos as int)),
                None => p_lit_opt(old(self).ts(), old(self).pos as int) is None && final(self).pos == old(self).pos,
            },
    {
        match self.peek() {
            Some(Token::IntLit(i)) => {
                self.advance();
                Some(Lit::Int(i))
            },
            Some(Token::FloatLit(f)) => {
                self.advance();
                Some(Lit::Float(f))
            },
            Some(Token::StringLit(s)) => {
                self.advance();
                Some(Lit::Str(s))
            },
            Some(Token::True) => {
                self.advance();
                Some(Lit::Bool(true))
            },
            Some(Token::False) => {
                self.advance();
                Some(Lit::Bool(false))
            },
            Some(Token::Null) => {
                self.advance();
                Some(Lit::Null)
            },
            _ => None,
        }
    }

    fn parse_literal(&mut self) -> (r: Result<Lit, CypherError>)
        requires
            old(self).wf(),
        ensures
            final(self).tokens == old(self).tokens,
            final(self).wf(),
            old(self).pos <= final(self).pos,
            match r {
                Ok(l) => p_lit_opt(old(self).ts(), old(self).pos as int) == Some((l@, final(self).pos as int)),
                Err(e) => p_lit_opt(old(self).ts(), old(self).pos as int) is None && err_matches(
                    e,
                    expected_at(old(self).ts(), old(self).pos as int, "literal value"@),
                ),
            },
    {
        match self.try_parse_literal() {
            Some(l) => Ok(l),
            None => Err(self.expected_error("literal value")),
        }
    }

    fn parse_integer_literal(&mut self) -> (r: Result<i64, CypherError>)
        requires
            old(self).wf(),
        ensures
            final(self).tokens == old(self).tokens,
            final(self).wf(),
            old(self).pos <= final(self).pos,
            match r {
                Ok(i) => p_int(old(self).ts(), old(self).pos as int) == Ok::<_, PErr>((i, final(self).pos as int)),
                Err(e) => p_int(old(self).ts(), old(self).pos as int) matches Err(pe) && err_matches(e, pe),
            },
    {
        match self.peek() {
            Some(Token::IntLit(i)) => {
                self.advance();
                Ok(i)
            },
            _ => Err(self.expected_error("integer literal")),
        }
    }

    fn try_parse_var(&mut self) -> (r: Option<String>)
        requires
            old(self).wf(),
        ensures
            final(self).tokens == old(self).tokens,
            final(self).wf(),
            old(self).pos <= final(self).pos,
            p_var(old(self).ts(), old(self).pos as int) == (opt_str_view(r), final(self).pos as int),
    {
        match self.peek() {
            Some(Token::Ident(name)) => {
                self.advance();
                Some(name)
            },
            _ => None,
        }
    }

    fn parse_prop_map(&mut self) -> (r: Result<Vec<(String, Lit)>, CypherError>)
        requires
            old(self).wf(),
        ensures
            final(self).tokens == old(self).tokens,
            final(self).wf(),
            old(self).pos <= final(self).pos,
            match r {
                Ok(v) => p_prop_map(old(self).ts(), old(self).pos as int) == Ok::<_, PErr>(
                    (props_view(v@), final(self).pos as int),
                ),
                Err(e) => p_prop_map(old(self).ts(), old(self).pos as int) matches Err(pe) && err_matches(e, pe),
            },
    {
        let ghost ts = self.ts();
        let ghost p0 = self.pos as int;
        match self.expect(&Token::LBrace) {
            Ok(_) => {},
            Err(e) => { return Err(e); },
        }
        let mut props: Vec<(String, Lit)> = Vec::new();
        proof {
            assert(props_view(props@) =~= Seq::<(Seq<char>, LitV)>::empty());
        }
        loop
            invariant
                self.tokens == old(self).tokens,
                self.wf(),
                ts == self.ts(),
                ts == old(self).ts(),
                p0 == old(self).pos,
                p0 < self.pos,
                p_prop_map(ts, p0) == match p_props_loop(ts, self.pos as int, props_view(props@)) {
                    Err(e) => Err(e),
                    Ok((props, r)) => if at(ts, r, TokenV::RBrace) {
                        Ok((props, r + 1))
                    } else {
                        Err(missing_at(ts, r, TokenV::RBrace))
                    },
                },
            ensures
                self.pos >= self.tokens@.len() || at(ts, self.pos as int, TokenV::RBrace),
            decreases self.tokens@.len() - self.pos,
        {
            if self.check(&Token::RBrace) || self.is_at_end() {
                break;
            }
            let key = match self.expect_name() {
                Ok(k) => k,
                Err(e) => { return Err(e); },
            };
            match self.expect(&Token::Colon) {
                Ok(_) => {},
                Err(e) => { return Err(e); },
            }
            let val = match self.parse_literal() {
                Ok(v) => v,
                Err(e) => { return Err(e); },
            };
            let ghost before = props_view(props@);
            let ghost entry = (key@, val@);
            props.push((key, val));
            proof {
                assert(props_view(props@) =~= before.push(entry));
            }
            if !self.eat(&Token::Comma) {
                match self.expect(&Token::RBrace) {
                    Ok(_) => {},
                    Err(e) => { return Err(e); },
                }
                return Ok(props);
            }
        }
        proof {
            assert(p_props_loop(ts, self.pos as int, props_view(props@)) == Ok::<_, PErr>(
                (props_view(props@), self.pos as int),
            ));
        }
        match self.expect(&Token::RBrace) {
            Ok(_) => {},
            Err(e) => { return Err(e); },
        }
        Ok(props)
    }

    fn parse_node_pat(&mut self) -> (r: Result<NodePat, CypherError>)
        requires
            old(self).wf(),
        ensures
            final(self).tokens == old(self).tokens,
            final(self).wf(),
            match r {
                Ok(n) => p_node_pat(old(self).ts(), old(self).pos as int) == Ok::<_, PErr>((n@, final(self).pos as int))
                    && old(self).pos < final(self).pos,
                Err(e) => p_node_pat(old(self).ts(), old(self).pos as int) matches Err(pe) && err_matches(e, pe),
            },
    {
        match self.expect(&Token::LParen) {
            Ok(_) => {},
            Err(e) => { return Err(e); },
        }
        let var = self.try_parse_var();
        let label = if self.eat(&Token::Colon) {
            match self.expect_name() {
                Ok(n) => Some(n),
                Err(e) => { return Err(e); },
            }
        } else {
            None
        };
        let properties = if self.check(&Token::LBrace) {
            match self.parse_prop_map() {
                Ok(p) => p,
                Err(e) => { return Err(e); },
            }
        } else {
            let v: Vec<(String, Lit)> = Vec::new();
            assert(props_view(v@) =~= Seq::<(Seq<char>, LitV)>::empty());
            v
        };
        match self.expect(&Token::RParen) {
            Ok(_) => {},
            Err(e) => { return Err(e); },
        }
        Ok(NodePat { var, label, properties })
    }

    fn parse_rel_types(&mut self) -> (r: Result<Vec<String>, CypherError>)
        requires
            old(self).wf(),
        ensures
            final(self).tokens == old(self).tokens,
            final(self).wf(),
            old(self).pos <= final(self).pos,
            match r {
                Ok(v) => p_rel_types(old(self).ts(), old(self).pos as int) == Ok::<_, PErr>(
                    (strs_view(v@), final(self).pos as int),
                ),
                Err(e) => p_rel_types(old(self).ts(), old(self).pos as int) matches Err(pe) && err_matches(e, pe),
            },
    {
        let ghost ts = self.ts();
        let first = match self.expect_name() {
            Ok(n) => n,
            Err(e) => { return Err(e); },
        };
        let ghost fv = first@;
        let mut types: Vec<String> = Vec::new();
        types.push(first);
        proof {
            assert(strs_view(types@) =~= seq![fv]);
        }
        while self.check(&Token::Pipe)
            invariant
                self.tokens == old(self).tokens,
                self.wf(),
                ts == self.ts(),
                ts == old(self).ts(),
                old(self).pos <= self.pos,
                p_rel_types(ts, old(self).pos as int) == p_types_loop(ts, self.pos as int, strs_view(types@)),
            decreases self.tokens@.len() - self.pos,
        {
            let ghost p = self.pos as int;
            self.advance();
            self.eat(&Token::Colon);
            let n = match self.expect_name() {
                Ok(n) => n,
                Err(e) => { return Err(e); },
            };
            let ghost before = strs_view(types@);
            let ghost nv = n@;
            types.push(n);
            proof {
                assert(strs_view(types@) =~= before.push(nv));
            }
        }
        Ok(types)
    }

    fn parse_rel_bracket(&mut self) -> (r: Result<(Option<String>, Vec<String>, Vec<(String, Lit)>), CypherError>)
        requires
            old(self).wf(),
        ensures
            final(self).tokens == old(self).tokens,
            final(self).wf(),
            old(self).pos <= final(self).pos,
            match r {
                Ok((var, types, props)) => p_rel_bracket(old(self).ts(), old(self).pos as int) == Ok::<_, PErr>(
                    (opt_str_view(var), strs_view(types@), props_view(props@), final(self).pos as int),
                ),
                Err(e) => p_rel_bracket(old(self).ts(), old(self).pos as int) matches Err(pe) && err_matches(e, pe),
            },
    {
        if !self.check(&Token::LBracket) {
            let t: Vec<String> = Vec::new();
            let p: Vec<(String, Lit)> = Vec::new();
            assert(strs_view(t@) =~= Seq::<Seq<char>>::empty());
            assert(props_view(p@) =~= Seq::<(Seq<char>, LitV)>::empty());
            return Ok((None, t, p));
        }
        self.advance();
        if self.check(&Token::Star) {
            return Err(CypherError::unsupported(Unsupported::VariableLengthPath));
        }
        let var = self.try_parse_var();
        if self.check(&Token::Star) {
            return Err(CypherError::unsupported(Unsupported::VariableLengthPath));
        }
        let types = if self.eat(&Token::Colon) {
            match self.parse_rel_types() {
                Ok(t) => t,
                Err(e) => { return Err(e); },
            }
        } else {
            let t: Vec<String> = Vec::new();
            assert(strs_view(t@) =~= Seq::<Seq<char>>::empty());
            t
        };
        if self.check(&Token::Star) {
            return Err(CypherError::unsupported(Unsupported::VariableLengthPath));
        }
        let props = if self.check(&Token::LBrace) {
            match self.parse_prop_map() {
                Ok(p) => p,
                Err(e) => { return Err(e); },
            }
        } else {
            let p: Vec<(String, Lit)> = Vec::new();
            assert(props_view(p@) =~= Seq::<(Seq<char>, LitV)>::empty());
            p
        };
        match self.expect(&Token::RBracket) {
            Ok(_) => {},
            Err(e) => { return Err(e); },
        }
        Ok((var, types, props))
    }

    fn parse_rel_body(&mut self, prefix: Direction) -> (r: Result<RelPat, CypherError>)
        requires
            old(self).wf(),
        ensures
            final(self).tokens == old(self).tokens,
            final(self).wf(),
            old(self).pos <= final(self).pos,
            match r {
                Ok(rel) => p_rel_body(old(self).ts(), old(self).pos as int, prefix) == Ok::<_, PErr>(
                    (rel@, final(self).pos as int),
                ),
                Err(e) => p_rel_body(old(self).ts(), old(self).pos as int, prefix) matches Err(pe) && err_matches(
                    e,
                    pe,
                ),
            },
    {
        let (var, types, properties) = match self.parse_rel_bracket() {
            Ok(b) => b,
            Err(e) => { return Err(e); },
        };
        let direction = if prefix == Direction::RightToLeft {
            self.eat(&Token::Minus);
            Direction::RightToLeft
        } else if self.eat(&Token::Arrow) {
            Direction::LeftToRight
        } else {
            self.eat(&Token::Minus);
            Direction::Undirected
        };
        Ok(RelPat { var, types, direction, properties })
    }

    fn bare_rel_pat(&self, d: Direction) -> (r: RelPat)
        ensures
            r@ == bare_rel(d),
    {
        let t: Vec<String> = Vec::new();
        let p: Vec<(String, Lit)> = Vec::new();
        assert(strs_view(t@) =~= Seq::<Seq<char>>::empty());
        assert(props_view(p@) =~= Seq::<(Seq<char>, LitV)>::empty());
        RelPat { var: None, types: t, direction: d, properties: p }
    }

    fn parse_rel_pat(&mut self) -> (r: Result<RelPat, CypherError>)
        requires
            old(self).wf(),
        ensures
            final(self).tokens == old(self).tokens,
            final(self).wf(),
            match r {
                Ok(rel) => p_rel_pat(old(self).ts(), old(self).pos as int) == Ok::<_, PErr>((rel@, final(self).pos as int))
                    && old(self).pos < final(self).pos,
                Err(e) => p_rel_pat(old(self).ts(), old(self).pos as int) matches Err(pe) && err_matches(e, pe),
            },
    {
        if self.check(&Token::Arrow) {
            self.advance();
            return Ok(self.bare_rel_pat(Direction::LeftToRight));
        }
        if self.check(&Token::LeftArrow) {
            self.advance();
            if self.check(&Token::LBracket) {
                return self.parse_rel_body(Direction::RightToLeft);
            }
            return Ok(self.bare_rel_pat(Direction::RightToLeft));
        }
        if self.check(&Token::DoubleDash) {
            self.advance();
            return Ok(self.bare_rel_pat(Direction::Undirected));
        }
        if self.check(&Token::Minus) {
            self.advance();
            return self.parse_rel_body(Direction::Undirected);
        }
        Err(self.error_here(String::from_str("expected relationship pattern")))
    }

    fn is_at_rel_start(&self) -> (b: bool)
        ensures
            b == is_rel_start(tok(self.ts(), self.pos as int)),
    {
        self.check(&Token::Arrow) || self.check(&Token::LeftArrow) || self.check(&Token::DoubleDash)
            || self.check(&Token::Minus)
    }

    fn parse_pattern(&mut self) -> (r: Result<Pattern, CypherError>)
        requires
            old(self).wf(),
        ensures
            final(self).tokens == old(self).tokens,
            final(self).wf(),
            match r {
                Ok(pat) => p_pattern(old(self).ts(), old(self).pos as int) == Ok::<_, PErr>((pat@, final(self).pos as int))
                    && old(self).pos < final(self).pos,
                Err(e) => p_pattern(old(self).ts(), old(self).pos as int) matches Err(pe) && err_matches(e, pe),
            },
    {
        let ghost ts = self.ts();
        if let Some(Token::Ident(_)) = self.peek() {
            if self.check_next(&Token::Eq) {
                return Err(CypherError::unsupported(Unsupported::PathVariable));
            }
        }
        let head = match self.parse_node_pat() {
            Ok(h) => h,
            Err(e) => { return Err(e); },
        };
        let ghost q = self.pos as int;
        let mut segments: Vec<(RelPat, NodePat)> = Vec::new();
        proof {
            assert(segments@.map_values(|s: (RelPat, NodePat)| (s.0@, s.1@)) =~= Seq::<(RelPatV, NodePatV)>::empty());
        }
        while self.is_at_rel_start()
            invariant
                self.tokens == old(self).tokens,
                self.wf(),
                ts == self.ts(),
                ts == old(self).ts(),
                old(self).pos < q <= self.pos,
                p_node_pat(ts, old(self).pos as int) == Ok::<_, PErr>((head@, q)),
                !(tok(ts, old(self).pos as int) matches Some(TokenV::Ident(_)) && at(ts, old(self).pos + 1, TokenV::Eq)),
                p_segments(ts, q, Seq::empty()) == p_segments(
                    ts,
                    self.pos as int,
                    segments@.map_values(|s: (RelPat, NodePat)| (s.0@, s.1@)),
                ),
            decreases self.tokens@.len() - self.pos,
        {
            let rel = match self.parse_rel_pat() {
                Ok(r) => r,
                Err(e) => { return Err(e); },
            };
            let node = match self.parse_node_pat() {
                Ok(n) => n,
                Err(e) => { return Err(e); },
            };
            let ghost before = segments@.map_values(|s: (RelPat, NodePat)| (s.0@, s.1@));
            let ghost entry = (rel@, node@);
            segments.push((rel, node));
            proof {
                assert(segments@.map_values(|s: (RelPat, NodePat)| (s.0@, s.1@)) =~= before.push(entry));
            }
        }
        Ok(Pattern { head, segments })
    }

    // -----------------------------------------------------------------------
    // Expressions
    // -----------------------------------------------------------------------

    fn parse_or_expr(&mut self) -> (r: Result<Expr, CypherError>)
        requires
            old(self).wf(),
        ensures
            final(self).tokens == old(self).tokens,
            final(self).wf(),
            match r {
                Ok(x) => p_or(old(self).ts(), old(self).pos as int) == Ok::<_, PErr>((x@, final(self).pos as int))
                    && old(self).pos < final(self).pos,
                Err(e) => p_or(old(self).ts(), old(self).pos as int) matches Err(pe) && err_matches(e, pe),
            },
        decreases old(self).tokens@.len() - old(self).pos, 4int,
    {
        let ghost ts = self.ts();
        let mut lhs = match self.parse_and_expr() {
            Ok(l) => l,
            Err(e) => { return Err(e); },
        };
        loop
            invariant
                self.tokens == old(self).tokens,
                self.wf(),
                ts == self.ts(),
                old(self).pos < self.pos,
                p_or(ts, old(self).pos as int) == p_or_rest(ts, self.pos as int, lhs@),
            decreases self.tokens@.len() - self.pos,
        {
            if !self.check(&Token::Or) {
                return Ok(lhs);
            }
            self.advance();
            let rhs = match self.parse_and_expr() {
                Ok(x) => x,
                Err(e) => { return Err(e); },
            };
            lhs = Expr::Binary(Box::new(lhs), BinOp::Or, Box::new(rhs));
        }
    }

    fn parse_and_expr(&mut self) -> (r: Result<Expr, CypherError>)
        requires
            old(self).wf(),
        ensures
            final(self).tokens == old(self).tokens,
            final(self).wf(),
            match r {
                Ok(x) => p_and(old(self).ts(), old(self).pos as int) == Ok::<_, PErr>((x@, final(self).pos as int))
                    && old(self).pos < final(self).pos,
                Err(e) => p_and(old(self).ts(), old(self).pos as int) matches Err(pe) && err_matches(e, pe),
            },
        decreases old(self).tokens@.len() - old(self).pos, 3int,
    {
        let ghost ts = self.ts();
        let mut lhs = match self.parse_not_expr() {
            Ok(l) => l,
            Err(e) => { return Err(e); },
        };
        loop
            invariant
                self.tokens == old(self).tokens,
                self.wf(),
                ts == self.ts(),
                old(self).pos < self.pos,
                p_and(ts, old(self).pos as int) == p_and_rest(ts, self.pos as int, lhs@),
            decreases self.tokens@.len() - self.pos,
        {
            if !self.check(&Token::And) {
                return Ok(lhs);
            }
            self.advance();
            let rhs = match self.parse_not_expr() {
                Ok(x) => x,
                Err(e) => { return Err(e); },
            };
            lhs = Expr::Binary(Box::new(lhs), BinOp::And, Box::new(rhs));
        }
    }

    fn parse_not_expr(&mut self) -> (r: Result<Expr, CypherError>)
        requires
            old(self).wf(),
        ensures
            final(self).tokens == old(self).tokens,
            final(self).wf(),
            match r {
                Ok(x) => p_not(old(self).ts(), old(self).pos as int) == Ok::<_, PErr>((x@, final(self).pos as int))
                    && old(self).pos < final(self).pos,
                Err(e) => p_not(old(self).ts(), old(self).pos as int) matches Err(pe) && err_matches(e, pe),
            },
        decreases old(self).tokens@.len() - old(self).pos, 2int,
    {
        if self.check(&Token::Not) {
            self.advance();
            let inner = match self.parse_not_expr() {
                Ok(x) => x,
                Err(e) => { return Err(e); },
            };
            return Ok(Expr::Unary(UnaryOp::Not, Box::new(inner)));
        }
        self.parse_comparison_expr()
    }

    fn parse_comparison_expr(&mut self) -> (r: Result<Expr, CypherError>)
        requires
            old(self).wf(),
        ensures
            final(self).tokens == old(self).tokens,
            final(self).wf(),
            match r {
                Ok(x) => p_comparison(old(self).ts(), old(self).pos as int) == Ok::<_, PErr>((x@, final(self).pos as int))
                    && old(self).pos < final(self).pos,
                Err(e) => p_comparison(old(self).ts(), old(self).pos as int) matches Err(pe) && err_matches(e, pe),
            },
        decreases old(self).tokens@.len() - old(self).pos, 1int,
    {
        let lhs = match self.parse_primary_expr() {
            Ok(l) => l,
            Err(e) => { return Err(e); },
        };
        if self.eat(&Token::Is) {
            let negated = self.eat(&Token::Not);
            if !self.eat(&Token::Null) {
                return Err(self.error_here(String::from_str("expected NULL after IS [NOT]")));
            }
            return Ok(Expr::IsNull(Box::new(lhs), negated));
        }
        if self.eat(&Token::Contains) {
            let rhs = match self.parse_primary_expr() {
                Ok(x) => x,
                Err(e) => { return Err(e); },
            };
            return Ok(Expr::Binary(Box::new(lhs), BinOp::Contains, Box::new(rhs)));
        }
        if self.eat(&Token::Starts) {
            if !self.eat(&Token::With) {
                return Err(self.error_here(String::from_str("expected WITH after STARTS")));
            }
            let rhs = match self.parse_primary_expr() {
                Ok(x) => x,
                Err(e) => { return Err(e); },
            };
            return Ok(Expr::Binary(Box::new(lhs), BinOp::StartsWith, Box::new(rhs)));
        }
        if self.eat(&Token::Ends) {
            if !self.eat(&Token::With) {
                return Err(self.error_here(String::from_str("expected WITH after ENDS")));
            }
            let rhs = match self.parse_primary_expr() {
                Ok(x) => x,
                Err(e) => { return Err(e); },
            };
            return Ok(Expr::Binary(Box::new(lhs), BinOp::EndsWith, Box::new(rhs)));
        }
        if self.check(&Token::In) {
            return Err(CypherError::unsupported(Unsupported::Function));
        }
        let op = if self.check(&Token::Eq) {
            BinOp::Eq
        } else if self.check(&Token::Neq) {
            BinOp::Neq
        } else if self.check(&Token::Lt) {
            BinOp::Lt
        } else if self.check(&Token::Gt) {
            BinOp::Gt
        } else if self.check(&Token::Le) {
            BinOp::Le
        } else if self.check(&Token::Ge) {
            BinOp::Ge
        } else if self.check(&Token::RegexEq) {
            BinOp::Regex
        } else {
            return Ok(lhs);
        };
        self.advance();
        let rhs = match self.parse_primary_expr() {
            Ok(x) => x,
            Err(e) => { return Err(e); },
        };
        Ok(Expr::Binary(Box::new(lhs), op, Box::new(rhs)))
    }

    fn parse_primary_expr(&mut self) -> (r: Result<Expr, CypherError>)
        requires
            old(self).wf(),
        ensures
            final(self).tokens == old(self).tokens,
            final(self).wf(),
            match r {
                Ok(x) => p_primary(old(self).ts(), old(self).pos as int) == Ok::<_, PErr>((x@, final(self).pos as int))
                    && old(self).pos < final(self).pos,
                Err(e) => p_primary(old(self).ts(), old(self).pos as int) matches Err(pe) && err_matches(e, pe),
            },
        decreases old(self).tokens@.len() - old(self).pos, 0int,
    {
        if self.check(&Token::LParen) {
            self.advance();
            let inner = match self.parse_or_expr() {
                Ok(x) => x,
                Err(e) => { return Err(e); },
            };
            match self.expect(&Token::RParen) {
                Ok(_) => {},
                Err(e) => { return Err(e); },
            }
            return Ok(inner);
        }
        match self.try_parse_literal() {
            Some(l) => { return Ok(Expr::Lit(l)); },
            None => {},
        }
        if self.check(&Token::Not) {
            self.advance();
            let inner = match self.parse_not_expr() {
                Ok(x) => x,
                Err(e) => { return Err(e); },
            };
            return Ok(Expr::Unary(UnaryOp::Not, Box::new(inner)));
        }
        match self.peek() {
            Some(Token::Ident(name)) => {
                self.advance();
                if self.eat(&Token::Dot) {
                    let prop = match self.expect_name() {
                        Ok(p) => p,
                        Err(e) => { return Err(e); },
                    };
                    return Ok(Expr::Prop(name, prop));
                }
                if self.check(&Token::LParen) {
                    return Err(CypherError::unsupported(Unsupported::Function));
                }
                Ok(Expr::Id(name))
            },
            _ => Err(self.expected_error("expression")),
        }
    }

    // -----------------------------------------------------------------------
    // RETURN and ORDER BY
    // -----------------------------------------------------------------------

    fn parse_return_expr(&mut self) -> (r: Result<ReturnExpr, CypherError>)
        requires
            old(self).wf(),
        ensures
            final(self).tokens == old(self).tokens,
            final(self).wf(),
            match r {
                Ok(x) => p_return_expr(old(self).ts(), old(self).pos as int) == Ok::<_, PErr>((x@, final(self).pos as int))
                    && old(self).pos < final(self).pos,
                Err(e) => p_return_expr(old(self).ts(), old(self).pos as int) matches Err(pe) && err_matches(e, pe),
            },
    {
        match self.peek() {
            Some(Token::Ident(name)) => {
                self.advance();
                if self.eat(&Token::Dot) {
                    let prop = match self.expect_name() {
                        Ok(p) => p,
                        Err(e) => { return Err(e); },
                    };
                    Ok(ReturnExpr::Prop(name, prop))
                } else if self.check(&Token::LParen) {
                    Err(CypherError::unsupported(Unsupported::Function))
                } else {
                    Ok(ReturnExpr::Var(name))
                }
            },
            _ => Err(self.expected_error("return expression")),
        }
    }

    fn parse_return_item(&mut self) -> (r: Result<ReturnItem, CypherError>)
        requires
            old(self).wf(),
        ensures
            final(self).tokens == old(self).tokens,
            final(self).wf(),
            match r {
                Ok(x) => p_return_item(old(self).ts(), old(self).pos as int) == Ok::<_, PErr>((x@, final(self).pos as int))
                    && old(self).pos < final(self).pos,
                Err(e) => p_return_item(old(self).ts(), old(self).pos as int) matches Err(pe) && err_matches(e, pe),
            },
    {
        let expr = match self.parse_return_expr() {
            Ok(x) => x,
            Err(e) => { return Err(e); },
        };
        let alias = if self.eat(&Token::As) {
            match self.expect_name() {
                Ok(a) => Some(a),
                Err(e) => { return Err(e); },
            }
        } else {
            None
        };
        Ok(ReturnItem { expr, alias })
    }

    fn parse_return_clause(&mut self) -> (r: Result<ReturnClause, CypherError>)
        requires
            old(self).wf(),
        ensures
            final(self).tokens == old(self).tokens,
            final(self).wf(),
            match r {
                Ok(c) => p_return_clause(old(self).ts(), old(self).pos as int) == Ok::<_, PErr>(
                    (return_items_view(c.items@), final(self).pos as int),
                ),
                Err(e) => p_return_clause(old(self).ts(), old(self).pos as int) matches Err(pe) && err_matches(e, pe),
            },
    {
        let ghost ts = self.ts();
        let first = match self.parse_return_item() {
            Ok(x) => x,
            Err(e) => { return Err(e); },
        };
        let ghost fv = first@;
        let mut items: Vec<ReturnItem> = Vec::new();
        items.push(first);
        proof {
            assert(return_items_view(items@) =~= seq![fv]);
        }
        while self.check(&Token::Comma)
            invariant
                self.tokens == old(self).tokens,
                self.wf(),
                ts == self.ts(),
                p_return_clause(ts, old(self).pos as int) == p_items_loop(
                    ts,
                    self.pos as int,
                    return_items_view(items@),
                ),
            decreases self.tokens@.len() - self.pos,
        {
            self.advance();
            let it = match self.parse_return_item() {
                Ok(x) => x,
                Err(e) => { return Err(e); },
            };
            let ghost before = return_items_view(items@);
            let ghost iv = it@;
            items.push(it);
            proof {
                assert(return_items_view(items@) =~= before.push(iv));
            }
        }
        Ok(ReturnClause { items })
    }

    fn parse_order_item(&mut self) -> (r: Result<OrderItem, CypherError>)
        requires
            old(self).wf(),
        ensures
            final(self).tokens == old(self).tokens,
            final(self).wf(),
            match r {
                Ok(x) => p_order_item(old(self).ts(), old(self).pos as int) == Ok::<_, PErr>((x@, final(self).pos as int))
                    && old(self).pos < final(self).pos,
                Err(e) => p_order_item(old(self).ts(), old(self).pos as int) matches Err(pe) && err_matches(e, pe),
            },
    {
        let expr = match self.parse_return_expr() {
            Ok(x) => x,
            Err(e) => { return Err(e); },
        };
        let descending = if self.eat(&Token::Desc) {
            true
        } else {
            self.eat(&Token::Asc);
            false
        };
        Ok(OrderItem { expr, descending })
    }

    fn parse_order_by(&mut self) -> (r: Result<OrderBy, CypherError>)
        requires
            old(self).wf(),
        ensures
            final(self).tokens == old(self).tokens,
            final(self).wf(),
            match r {
                Ok(o) => p_order_by(old(self).ts(), old(self).pos as int) == Ok::<_, PErr>(
                    (order_items_view(o.items@), final(self).pos as int),
                ),
                Err(e) => p_order_by(old(self).ts(), old(self).pos as int) matches Err(pe) && err_matches(e, pe),
            },
    {
        let ghost ts = self.ts();
        let first = match self.parse_order_item() {
            Ok(x) => x,
            Err(e) => { return Err(e); },
        };
        let ghost fv = first@;
        let mut items: Vec<OrderItem> = Vec::new();
        items.push(first);
        proof {
            assert(order_items_view(items@) =~= seq![fv]);
        }
        while self.check(&Token::Comma)
            invariant
                self.tokens == old(self).tokens,
                self.wf(),
                ts == self.ts(),
                p_order_by(ts, old(self).pos as int) == p_order_loop(
                    ts,
                    self.pos as int,
                    order_items_view(items@),
                ),
            decreases self.tokens@.len() - self.pos,
        {
            self.advance();
            let it = match self.parse_order_item() {
                Ok(x) => x,
                Err(e) => { return Err(e); },
            };
            let ghost before = order_items_view(items@);
            let ghost iv = it@;
            items.push(it);
            proof {
                assert(order_items_view(items@) =~= before.push(iv));
            }
        }
        Ok(OrderBy { items })
    }

    // -----------------------------------------------------------------------
    // Query
    // -----------------------------------------------------------------------

    /// Reject any out-of-scope keyword anywhere in the token stream.
    fn detect_forbidden_top_level(&self) -> (r: Result<(), CypherError>)
        ensures
            match r {
                Ok(_) => first_forbidden(self.ts(), 0) is None,
                Err(e) => first_forbidden(self.ts(), 0) matches Some(u) && e == CypherError::Unsupported(
                    UnsupportedError(u),
                ),
            },
    {
        let ghost ts = self.ts();
        let mut i: usize = 0;
        while i < self.tokens.len()
            invariant
                i <= self.tokens@.len(),
                ts == self.ts(),
                first_forbidden(ts, 0) == first_forbidden(ts, i as int),
            decreases self.tokens@.len() - i,
        {
            let t = &self.tokens[i].token;
            let found: Option<Unsupported> = match t {
                Token::With => {
                    let predicate = i > 0 && (matches!(self.tokens[i - 1].token, Token::Starts) || matches!(
                        self.tokens[i - 1].token,
                        Token::Ends
                    ));
                    if predicate { None } else { Some(Unsupported::With) }
                },
                Token::Unwind => Some(Unsupported::Unwind),
                Token::Merge => Some(Unsupported::Merge),
                Token::Create => Some(Unsupported::Create),
                Token::Delete => Some(Unsupported::Delete),
                Token::SetKeyword => Some(Unsupported::SetClause),
                Token::Remove => Some(Unsupported::Remove),
                Token::Optional => Some(Unsupported::OptionalMatch),
                _ => None,
            };
            assert(found == forbidden_at(ts, i as int));
            if let Some(u) = found {
                return Err(CypherError::unsupported(u));
            }
            i += 1;
        }
        Ok(())
    }

    fn parse_query(&mut self) -> (r: Result<Query, CypherError>)
        requires
            old(self).pos == 0,
        ensures
            final(self).tokens == old(self).tokens,
            final(self).wf(),
            match r {
                Ok(q) => p_query(old(self).ts()) == Ok::<_, PErr>((q@, final(self).pos as int)),
                Err(e) => p_query(old(self).ts()) matches Err(pe) && err_matches(e, pe),
            },
    {
        let ghost ts = self.ts();
        match self.detect_forbidden_top_level() {
            Ok(_) => {},
            Err(e) => { return Err(e); },
        }
        if !self.check(&Token::Match) {
            return Err(self.error_here(String::from_str("query must start with MATCH")));
        }
        let mut match_clauses: Vec<MatchClause> = Vec::new();
        proof {
            assert(match_clauses@.map_values(|m: MatchClause| m.pattern@) =~= Seq::<PatternV>::empty());
        }
        while self.check(&Token::Match)
            invariant
                self.tokens == old(self).tokens,
                self.wf(),
                ts == self.ts(),
                ts == old(self).ts(),
                first_forbidden(ts, 0) is None,
                at(ts, 0, TokenV::Match),
                p_match_loop(ts, 0, Seq::empty()) == p_match_loop(
                    ts,
                    self.pos as int,
                    match_clauses@.map_values(|m: MatchClause| m.pattern@),
                ),
            decreases self.tokens@.len() - self.pos,
        {
            self.advance();
            let pattern = match self.parse_pattern() {
                Ok(p) => p,
                Err(e) => { return Err(e); },
            };
            let ghost before = match_clauses@.map_values(|m: MatchClause| m.pattern@);
            let ghost pv = pattern@;
            match_clauses.push(MatchClause { pattern });
            proof {
                assert(match_clauses@.map_values(|m: MatchClause| m.pattern@) =~= before.push(pv));
            }
        }
        self.parse_query_tail(match_clauses)
    }

    fn parse_opt_int(&mut self, kw: &Token) -> (r: Result<Option<i64>, CypherError>)
        requires
            old(self).wf(),
        ensures
            final(self).tokens == old(self).tokens,
            final(self).wf(),
            match r {
                Ok(v) => p_opt_int(old(self).ts(), old(self).pos as int, kw@) == Ok::<_, PErr>((v, final(self).pos as int)),
                Err(e) => p_opt_int(old(self).ts(), old(self).pos as int, kw@) matches Err(pe) && err_matches(e, pe),
            },
    {
        if self.eat(kw) {
            match self.parse_integer_literal() {
                Ok(i) => Ok(Some(i)),
                Err(e) => Err(e),
            }
        } else {
            Ok(None)
        }
    }

    fn parse_opt_order(&mut self) -> (r: Result<Option<OrderBy>, CypherError>)
        requires
            old(self).wf(),
        ensures
            final(self).tokens == old(self).tokens,
            final(self).wf(),
            match r {
                Ok(o) => p_opt_order(old(self).ts(), old(self).pos as int) == Ok::<_, PErr>((
                    match o {
                        Some(ob) => Some(order_items_view(ob.items@)),
                        None => None,
                    },
                    final(self).pos as int,
                )),
                Err(e) => p_opt_order(old(self).ts(), old(self).pos as int) matches Err(pe) && err_matches(e, pe),
            },
    {
        if self.check(&Token::Order) {
            self.advance();
            if !self.eat(&Token::By) {
                return Err(self.error_here(String::from_str("expected BY after ORDER")));
            }
            match self.parse_order_by() {
                Ok(o) => Ok(Some(o)),
                Err(e) => Err(e),
            }
        } else {
            Ok(None)
        }
    }

    fn parse_where(&mut self) -> (r: Result<Option<Expr>, CypherError>)
        requires
            old(self).wf(),
        ensures
            final(self).tokens == old(self).tokens,
            final(self).wf(),
            match r {
                Ok(w) => p_where(old(self).ts(), old(self).pos as int) == Ok::<_, PErr>((
                    match w {
                        Some(x) => Some(x@),
                        None => None,
                    },
                    final(self).pos as int,
                )),
                Err(e) => p_where(old(self).ts(), old(self).pos as int) matches Err(pe) && err_matches(e, pe),
            },
    {
        if self.eat(&Token::Where) {
            match self.parse_or_expr() {
                Ok(x) => Ok(Some(x)),
                Err(e) => Err(e),
            }
        } else {
            Ok(None)
        }
    }

    fn parse_query_tail(&mut self, match_clauses: Vec<MatchClause>) -> (r: Result<Query, CypherError>)
        requires
            old(self).wf(),
        ensures
            final(self).tokens == old(self).tokens,
            final(self).wf(),
            match r {
                Ok(q) => p_query_tail(
                    old(self).ts(),
                    match_clauses@.map_values(|m: MatchClause| m.pattern@),
                    old(self).pos as int,
                ) == Ok::<_, PErr>((q@, final(self).pos as int)),
                Err(e) => p_query_tail(
                    old(self).ts(),
                    match_clauses@.map_values(|m: MatchClause| m.pattern@),
                    old(self).pos as int,
                ) matches Err(pe) && err_matches(e, pe),
            },
    {
        let where_clause = match self.parse_where() {
            Ok(w) => w,
            Err(e) => { return Err(e); },
        };
        if !self.eat(&Token::Return) {
            return Err(self.error_here(String::from_str("expected RETURN clause")));
        }
        let distinct = self.eat(&Token::Distinct);
        let return_clause = match self.parse_return_clause() {
            Ok(c) => c,
            Err(e) => { return Err(e); },
        };
        let order_by = match self.parse_opt_order() {
            Ok(o) => o,
            Err(e) => { return Err(e); },
        };
        let skip = match self.parse_opt_int(&Token::Skip) {
            Ok(s) => s,
            Err(e) => { return Err(e); },
        };
        let limit = match self.parse_opt_int(&Token::Limit) {
            Ok(l) => l,
            Err(e) => { return Err(e); },
        };
        self.eat(&Token::Semicolon);
        Ok(Query { match_clauses, where_clause, return_clause, order_by, skip, limit, distinct })
    }
}

/// Whether `e` is the error that the parse outcome `o` describes.
pub open spec fn parse_error_matches(e: CypherError, o: ParseOutcome) -> bool {
    match o {
        ParseOutcome::Parsed(_) => false,
        ParseOutcome::LexError(m, s, t) => is_parse_error(e, m, s, t),
        ParseOutcome::Failed(pe) => err_matches(e, pe),
    }
}

/// Parse a Cypher-Lite query string into an AST.
/// Returns `Err(CypherError)` on syntax or scope violations.
pub fn parse(query: &str) -> (r: Result<Query, CypherError>)
    requires
        tokenize_defined(query@),
    ensures
        match r {
            Ok(q) => spec_parse(query@) == ParseOutcome::Parsed(q@),
            Err(e) => parse_error_matches(e, spec_parse(query@)),
        },
{
    let tokens = match tokenize(query) {
        Ok(t) => t,
        Err(e) => { return Err(e); },
    };
    let mut p = Parser { tokens: tokens.as_slice(), pos: 0 };
    proof {
        assert(p.ts() == spanned_views(tokens@));
    }
    let q = match p.parse_query() {
        Ok(q) => q,
        Err(e) => { return Err(e); },
    };
    if !p.is_at_end() {
        let mut m = String::from_str("unexpected token after query end: ");
        match p.peek() {
            Some(t) => {
                m.append("Some(");
                let d = token_debug(&t);
                m.append(d.as_str());
                m.append(")");
            },
            None => {
                m.append("None");
            },
        }
        assert(m@ =~= trailing_msg(p.ts(), p.pos as int));
        return Err(p.error_here(m));
    }
    Ok(q)
}

} // verus!
