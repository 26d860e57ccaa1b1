//! Laws of the Cypher-Lite parser: which out-of-scope feature it reports.

use vstd::prelude::*;
use crate::cypher::ast::{BinOp, Direction, ExprV, LitV, NodePatV, OrderItemV, PatternV, RelPatV, ReturnItemV};
use crate::cypher::lexer::{SpannedV, TokenV, spec_tokenize};
use crate::cypher::parser::{
    PErr, ParseOutcome, at, bin, first_forbidden, forbidden_at, p_and, p_and_rest, p_comparison, p_items_loop,
    p_lit_opt, p_match_loop, p_name, p_node_pat, p_not, p_or, p_or_rest, p_order_item, p_order_loop, p_pattern,
    p_primary, p_props_loop, p_query_tail, p_rel_body, p_rel_bracket, p_rel_pat, p_rel_types, p_return_clause,
    p_return_item, p_segments, p_types_loop, p_var, p_where, spec_parse,
};
use crate::cypher::scope::Unsupported;

verus! {

proof fn first_forbidden_is_least(ts: Seq<SpannedV>, i: int, j: int)
    requires
        0 <= i <= j < ts.len(),
        forbidden_at(ts, j) is Some,
        forall|k: int| i <= k < j ==> forbidden_at(ts, k) is None,
    ensures
        first_forbidden(ts, i) == forbidden_at(ts, j),
    decreases j - i,
{
    if i < j {
        first_forbidden_is_least(ts, i + 1, j);
    }
}

/// A query holding out-of-scope keywords is refused with the feature of the
/// first of them in the text, whatever else is wrong with it.
pub proof fn parse_reports_first_forbidden_keyword(q: Seq<char>, j: int)
    requires
        spec_tokenize(q) is Tokens,
        0 <= j < spec_tokenize(q)->Tokens_0.len(),
        forbidden_at(spec_tokenize(q)->Tokens_0, j) is Some,
        forall|k: int| 0 <= k < j ==> forbidden_at(spec_tokenize(q)->Tokens_0, k) is None,
    ensures
        spec_parse(q) == ParseOutcome::Failed(PErr::Scope(forbidden_at(spec_tokenize(q)->Tokens_0, j)->0)),
{
    first_forbidden_is_least(spec_tokenize(q)->Tokens_0, 0, j);
}



/// An error the grammar itself raises inside a clause: a syntax error, or a
/// variable-length path, a path variable or a function call.
pub open spec fn grammar_error(e: PErr) -> bool {
    match e {
        PErr::Syntax(..) => true,
        PErr::Scope(u) => u == Unsupported::VariableLengthPath || u == Unsupported::PathVariable || u
            == Unsupported::Function,
    }
}

/// A parse step that fails, if at all, with a grammar error.
pub open spec fn grammar_ok<T>(r: Result<T, PErr>) -> bool {
    r matches Err(e) ==> grammar_error(e)
}

proof fn props_loop_ok(ts: Seq<SpannedV>, p: int, acc: Seq<(Seq<char>, LitV)>)
    ensures
        grammar_ok(p_props_loop(ts, p, acc)),
    decreases ts.len() - p,
{
    if !(p < 0 || p >= ts.len() || at(ts, p, TokenV::RBrace)) {
        match p_name(ts, p) {
            Ok((k, q)) => {
                match p_lit_opt(ts, q + 1) {
                    Some((v, r)) => {
                        if p < r + 1 <= ts.len() {
                            props_loop_ok(ts, r + 1, acc.push((k, v)));
                        }
                    },
                    None => {},
                }
            },
            Err(_) => {},
        }
    }
}

proof fn node_pat_ok(ts: Seq<SpannedV>, p: int)
    ensures
        grammar_ok(p_node_pat(ts, p)),
{
    let (var, q1) = p_var(ts, p + 1);
    let lab: Result<(Option<Seq<char>>, int), PErr> = if at(ts, q1, TokenV::Colon) {
        match p_name(ts, q1 + 1) {
            Ok((n, r)) => Ok((Some(n), r)),
            Err(e) => Err(e),
        }
    } else {
        Ok((None, q1))
    };
    if let Ok((_, q2)) = lab {
        props_loop_ok(ts, q2 + 1, Seq::empty());
    }
}

proof fn types_loop_ok(ts: Seq<SpannedV>, p: int, acc: Seq<Seq<char>>)
    ensures
        grammar_ok(p_types_loop(ts, p, acc)),
    decreases ts.len() - p,
{
    if at(ts, p, TokenV::Pipe) {
        let q = if at(ts, p + 1, TokenV::Colon) { p + 2 } else { p + 1 };
        if let Ok((n, r)) = p_name(ts, q) {
            if p < r <= ts.len() {
                types_loop_ok(ts, r, acc.push(n));
            }
        }
    }
}

proof fn rel_pat_ok(ts: Seq<SpannedV>, p: int)
    ensures
        grammar_ok(p_rel_pat(ts, p)),
        forall|q: int, d: Direction| grammar_ok(#[trigger] p_rel_body(ts, q, d)),
{
    assert forall|q: int, d: Direction| grammar_ok(#[trigger] p_rel_body(ts, q, d)) by {
        rel_bracket_ok(ts, q);
    }
}

proof fn rel_bracket_ok(ts: Seq<SpannedV>, q: int)
    ensures
        grammar_ok(p_rel_bracket(ts, q)),
{
    let (var, q2) = p_var(ts, q + 1);
    if let Ok((n, r)) = p_name(ts, q2 + 1) {
        types_loop_ok(ts, r, seq![n]);
    }
    let tr = if at(ts, q2, TokenV::Colon) {
        p_rel_types(ts, q2 + 1)
    } else {
        Ok((Seq::empty(), q2))
    };
    if let Ok((_, q3)) = tr {
        props_loop_ok(ts, q3 + 1, Seq::empty());
    }
}

proof fn segments_ok(ts: Seq<SpannedV>, p: int, acc: Seq<(RelPatV, NodePatV)>)
    ensures
        grammar_ok(p_segments(ts, p, acc)),
    decreases ts.len() - p,
{
    rel_pat_ok(ts, p);
    if let Ok((rel, q)) = p_rel_pat(ts, p) {
        node_pat_ok(ts, q);
        if let Ok((node, r)) = p_node_pat(ts, q) {
            if p < r <= ts.len() {
                segments_ok(ts, r, acc.push((rel, node)));
            }
        }
    }
}

proof fn pattern_ok(ts: Seq<SpannedV>, p: int)
    ensures
        grammar_ok(p_pattern(ts, p)),
{
    node_pat_ok(ts, p);
    if let Ok((_, q)) = p_node_pat(ts, p) {
        segments_ok(ts, q, Seq::empty());
    }
}

proof fn or_ok(ts: Seq<SpannedV>, p: int)
    ensures
        grammar_ok(p_or(ts, p)),
    decreases ts.len() - p, 4int,
{
    and_ok(ts, p);
    if let Ok((l, q)) = p_and(ts, p) {
        if p < q <= ts.len() {
            or_rest_ok(ts, q, l);
        }
    }
}

proof fn or_rest_ok(ts: Seq<SpannedV>, q: int, l: ExprV)
    ensures
        grammar_ok(p_or_rest(ts, q, l)),
    decreases ts.len() - q, 5int,
{
    if at(ts, q, TokenV::Or) {
        and_ok(ts, q + 1);
        if let Ok((r, s)) = p_and(ts, q + 1) {
            if q < s <= ts.len() {
                or_rest_ok(ts, s, bin(l, BinOp::Or, r));
            }
        }
    }
}

proof fn and_ok(ts: Seq<SpannedV>, p: int)
    ensures
        grammar_ok(p_and(ts, p)),
    decreases ts.len() - p, 3int,
{
    not_ok(ts, p);
    if let Ok((l, q)) = p_not(ts, p) {
        if p < q <= ts.len() {
            and_rest_ok(ts, q, l);
        }
    }
}

proof fn and_rest_ok(ts: Seq<SpannedV>, q: int, l: ExprV)
    ensures
        grammar_ok(p_and_rest(ts, q, l)),
    decreases ts.len() - q, 5int,
{
    if at(ts, q, TokenV::And) {
        not_ok(ts, q + 1);
        if let Ok((r, s)) = p_not(ts, q + 1) {
            if q < s <= ts.len() {
                and_rest_ok(ts, s, bin(l, BinOp::And, r));
            }
        }
    }
}

proof fn not_ok(ts: Seq<SpannedV>, p: int)
    ensures
        grammar_ok(p_not(ts, p)),
    decreases ts.len() - p, 2int,
{
    if at(ts, p, TokenV::Not) {
        if p + 1 <= ts.len() {
            not_ok(ts, p + 1);
        }
    } else {
        comparison_ok(ts, p);
    }
}

proof fn comparison_ok(ts: Seq<SpannedV>, p: int)
    ensures
        grammar_ok(p_comparison(ts, p)),
    decreases ts.len() - p, 1int,
{
    primary_ok(ts, p);
    if let Ok((l, q)) = p_primary(ts, p) {
        if p < q < ts.len() {
            primary_ok(ts, q + 1);
            if q + 2 <= ts.len() {
                primary_ok(ts, q + 2);
            }
        }
    }
}

proof fn primary_ok(ts: Seq<SpannedV>, p: int)
    ensures
        grammar_ok(p_primary(ts, p)),
    decreases ts.len() - p, 0int,
{
    if p < ts.len() {
        if at(ts, p, TokenV::LParen) {
            or_ok(ts, p + 1);
        } else if at(ts, p, TokenV::Not) {
            not_ok(ts, p + 1);
        }
    }
}

proof fn items_loop_ok(ts: Seq<SpannedV>, p: int, acc: Seq<ReturnItemV>)
    ensures
        grammar_ok(p_items_loop(ts, p, acc)),
    decreases ts.len() - p,
{
    if at(ts, p, TokenV::Comma) {
        if let Ok((it, q)) = p_return_item(ts, p + 1) {
            if p < q <= ts.len() {
                items_loop_ok(ts, q, acc.push(it));
            }
        }
    }
}

proof fn order_loop_ok(ts: Seq<SpannedV>, p: int, acc: Seq<OrderItemV>)
    ensures
        grammar_ok(p_order_loop(ts, p, acc)),
    decreases ts.len() - p,
{
    if at(ts, p, TokenV::Comma) {
        if let Ok((it, q)) = p_order_item(ts, p + 1) {
            if p < q <= ts.len() {
                order_loop_ok(ts, q, acc.push(it));
            }
        }
    }
}

proof fn match_loop_ok(ts: Seq<SpannedV>, p: int, acc: Seq<PatternV>)
    ensures
        grammar_ok(p_match_loop(ts, p, acc)),
    decreases ts.len() - p,
{
    if at(ts, p, TokenV::Match) {
        pattern_ok(ts, p + 1);
        if let Ok((pat, q)) = p_pattern(ts, p + 1) {
            if p < q <= ts.len() {
                match_loop_ok(ts, q, acc.push(pat));
            }
        }
    }
}

proof fn query_tail_ok(ts: Seq<SpannedV>, clauses: Seq<PatternV>, p1: int)
    ensures
        grammar_ok(p_query_tail(ts, clauses, p1)),
{
    or_ok(ts, p1 + 1);
    if let Ok((where_clause, p2)) = p_where(ts, p1) {
        let distinct = at(ts, p2 + 1, TokenV::Distinct);
        let p4 = if distinct { p2 + 2 } else { p2 + 1 };
        if let Ok((it, q)) = p_return_item(ts, p4) {
            items_loop_ok(ts, q, seq![it]);
        }
        if let Ok((items, p5)) = p_return_clause(ts, p4) {
            if let Ok((it, q)) = p_order_item(ts, p5 + 2) {
                order_loop_ok(ts, q, seq![it]);
            }
        }
    }
}

proof fn none_forbidden_from(ts: Seq<SpannedV>, i: int)
    requires
        0 <= i,
        forall|k: int| i <= k < ts.len() ==> forbidden_at(ts, k) is None,
    ensures
        first_forbidden(ts, i) is None,
    decreases ts.len() - i,
{
    if i < ts.len() {
        none_forbidden_from(ts, i + 1);
    }
}

/// A query without any of the keywords WITH (as a clause), UNWIND, MERGE,
/// CREATE, DELETE, SET, REMOVE and OPTIONAL is never refused for one of those
/// features: any error is a syntax error, or names a variable-length path,
/// a path variable or a function call.
pub proof fn parse_without_forbidden_keywords(q: Seq<char>)
    requires
        spec_tokenize(q) is Tokens,
        forall|k: int| 0 <= k < spec_tokenize(q)->Tokens_0.len() ==> forbidden_at(spec_tokenize(q)->Tokens_0, k) is None,
    ensures
        spec_parse(q) matches ParseOutcome::Failed(e) ==> grammar_error(e),
{
    let ts = spec_tokenize(q)->Tokens_0;
    none_forbidden_from(ts, 0);
    match_loop_ok(ts, 0, Seq::empty());
    if let Ok((clauses, p1)) = p_match_loop(ts, 0, Seq::empty()) {
        query_tail_ok(ts, clauses, p1);
    }
}

} // verus!
