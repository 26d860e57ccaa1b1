//! Cypher-Lite query plan IR and planner.
//!
//! The planner applies the scope rules that the parser leaves to it (one
//! MATCH clause, at most three hops, known labels) and lays the query out as
//! a left-to-right pipeline of plan nodes.

use vstd::prelude::*;
use crate::cypher::ast::{
    BinOp, Direction, Expr, ExprV, Lit, LitV, MatchClause, NodePat, OrderBy, OrderItemV, Pattern,
    Query, QueryV, RelPat, ReturnItem, ReturnItemV, NodePatV, RelPatV, order_items_view,
    props_view, return_items_view, strs_view,
};
use crate::cypher::error::{CypherError, UnsupportedError};
use crate::cypher::scope::Unsupported;
use crate::store::NodeKind;
use crate::text::{push_decimal, spec_decimal, str_eq};

verus! {

/// An edge pattern used in Expand nodes.
#[derive(Debug)]
pub struct EdgePat {
    /// Relationship type names (OR semantics). Empty = any edge kind.
    pub types: Vec<String>,
    pub direction: Direction,
    pub var: Option<String>,
}

/// A single step in the execution pipeline.
#[derive(Debug)]
pub enum PlanNode {
    /// Full scan of the nodes, filtered by optional label and property equality.
    Scan { var: String, label: Option<NodeKind>, props: Vec<(String, Lit)> },
    /// Expand edges from a bound variable.
    Expand { from: String, edge: EdgePat, to: String },
    /// Evaluate a WHERE expression against the current row.
    Filter(Expr),
    /// Compute the projection for RETURN.
    Project(Vec<ReturnItem>),
    /// Remove duplicate rows.
    Distinct,
    /// Sort rows.
    Sort(OrderBy),
    /// Skip the first N rows.
    Skip(i64),
    /// Take at most N rows.
    Take(i64),
}

pub struct EdgePatV {
    pub types: Seq<Seq<char>>,
    pub direction: Direction,
    pub var: Option<Seq<char>>,
}

pub enum PlanNodeV {
    Scan { var: Seq<char>, label: Option<NodeKind>, props: Seq<(Seq<char>, LitV)> },
    Expand { from: Seq<char>, edge: EdgePatV, to: Seq<char> },
    Filter(ExprV),
    Project(Seq<ReturnItemV>),
    Distinct,
    Sort(Seq<OrderItemV>),
    Skip(i64),
    Take(i64),
}

impl View for EdgePat {
    type V = EdgePatV;

    open spec fn view(&self) -> EdgePatV {
        EdgePatV { types: strs_view(self.types@), direction: self.direction, var: crate::cypher::ast::opt_str_view(self.var) }
    }
}

impl View for PlanNode {
    type V = PlanNodeV;

    open spec fn view(&self) -> PlanNodeV {
        match self {
            PlanNode::Scan { var, label, props } => PlanNodeV::Scan { var: var@, label: *label, props: props_view(props@) },
            PlanNode::Expand { from, edge, to } => PlanNodeV::Expand { from: from@, edge: edge@, to: to@ },
            PlanNode::Filter(e) => PlanNodeV::Filter(e@),
            PlanNode::Project(items) => PlanNodeV::Project(return_items_view(items@)),
            PlanNode::Distinct => PlanNodeV::Distinct,
            PlanNode::Sort(o) => PlanNodeV::Sort(order_items_view(o.items@)),
            PlanNode::Skip(n) => PlanNodeV::Skip(*n),
            PlanNode::Take(n) => PlanNodeV::Take(*n),
        }
    }
}

pub open spec fn plan_view(p: Seq<PlanNode>) -> Seq<PlanNodeV> {
    p.map_values(|n: PlanNode| n@)
}

/// The stored kind a query label names.
pub open spec fn spec_label_kind(l: Seq<char>) -> Option<NodeKind> {
    if l == "File"@ {
        Some(NodeKind::File)
    } else if l == "Module"@ {
        Some(NodeKind::Module)
    } else if l == "Function"@ {
        Some(NodeKind::Function)
    } else if l == "Class"@ {
        Some(NodeKind::Class)
    } else if l == "Struct"@ {
        Some(NodeKind::Struct)
    } else if l == "Enum"@ {
        Some(NodeKind::Enum)
    } else if l == "Trait"@ {
        Some(NodeKind::Trait)
    } else if l == "Method"@ {
        Some(NodeKind::Method)
    } else if l == "Route"@ {
        Some(NodeKind::Route)
    } else {
        None
    }
}

/// The label a kind is named by in queries.
pub open spec fn spec_kind_name(k: NodeKind) -> Seq<char> {
    match k {
        NodeKind::File => "File"@,
        NodeKind::Module => "Module"@,
        NodeKind::Function => "Function"@,
        NodeKind::Class => "Class"@,
        NodeKind::Struct => "Struct"@,
        NodeKind::Enum => "Enum"@,
        NodeKind::Trait => "Trait"@,
        NodeKind::Method => "Method"@,
        NodeKind::Route => "Route"@,
    }
}

/// The message for a label that names no kind.
pub open spec fn unknown_label_message(l: Seq<char>) -> Seq<char> {
    "unknown node label `"@ + l
        + "`; valid labels: File, Module, Function, Class, Struct, Enum, Trait, Method, Route"@
}

/// Why a query cannot be planned.
pub enum PlanFailure {
    MultipleMatch,
    NoMatch,
    TooManyHops,
    UnknownLabel(Seq<char>),
}

/// The error value that reports a planning failure.
pub open spec fn reports(e: CypherError, f: PlanFailure) -> bool {
    match f {
        PlanFailure::MultipleMatch => e == CypherError::Unsupported(UnsupportedError(Unsupported::MultipleMatch)),
        PlanFailure::NoMatch => e matches CypherError::Parse { msg, span, span_start }
            && msg@ == "query has no MATCH clause"@ && span == (0usize, 0usize) && span_start == 0,
        PlanFailure::TooManyHops => e == CypherError::Unsupported(UnsupportedError(Unsupported::ChainTooLong)),
        PlanFailure::UnknownLabel(l) => e matches CypherError::Execute { msg } && msg@ == unknown_label_message(l),
    }
}

/// The variable a hop node binds: its own name, or `_n<i+1>` for the
/// `i`-th segment.
pub open spec fn hop_var(n: NodePatV, i: int) -> Seq<char> {
    match n.var {
        Some(v) => v,
        None => "_n"@ + spec_decimal((i + 1) as nat),
    }
}

/// The variable the head node binds: its own name, or `_n0`.
pub open spec fn head_var(n: NodePatV) -> Seq<char> {
    match n.var {
        Some(v) => v,
        None => "_n0"@,
    }
}

/// `WHERE to.key = value`.
pub open spec fn prop_filter(to: Seq<char>, p: (Seq<char>, LitV)) -> PlanNodeV {
    PlanNodeV::Filter(ExprV::Binary(Box::new(ExprV::Prop(to, p.0)), BinOp::Eq, Box::new(ExprV::Lit(p.1))))
}

/// `WHERE to.kind = "<Label>"`.
pub open spec fn kind_filter(to: Seq<char>, k: NodeKind) -> PlanNodeV {
    PlanNodeV::Filter(
        ExprV::Binary(Box::new(ExprV::Prop(to, "kind"@)), BinOp::Eq, Box::new(ExprV::Lit(LitV::Str(spec_kind_name(k))))),
    )
}

pub open spec fn prop_filters(to: Seq<char>, props: Seq<(Seq<char>, LitV)>) -> Seq<PlanNodeV> {
    props.map_values(|p: (Seq<char>, LitV)| prop_filter(to, p))
}

/// The steps for segment `i`: expand from `prev`, then the hop node's label
/// and property filters.
pub open spec fn segment_steps(seg: (RelPatV, NodePatV), i: int, prev: Seq<char>) -> Result<Seq<PlanNodeV>, PlanFailure> {
    let to = hop_var(seg.1, i);
    let expand = PlanNodeV::Expand {
        from: prev,
        edge: EdgePatV { types: seg.0.types, direction: seg.0.direction, var: seg.0.var },
        to,
    };
    match seg.1.label {
        Some(l) => match spec_label_kind(l) {
            None => Err(PlanFailure::UnknownLabel(l)),
            Some(k) => Ok(seq![expand, kind_filter(to, k)] + prop_filters(to, seg.1.properties)),
        },
        None => Ok(seq![expand] + prop_filters(to, seg.1.properties)),
    }
}

/// The variable bound before segment `i`.
pub open spec fn prev_var(segs: Seq<(RelPatV, NodePatV)>, i: int, head: Seq<char>) -> Seq<char> {
    if i == 0 {
        head
    } else {
        hop_var(segs[i - 1].1, i - 1)
    }
}

/// The steps of all segments, in order; the first label error wins.
pub open spec fn segments_steps(segs: Seq<(RelPatV, NodePatV)>, head: Seq<char>) -> Result<Seq<PlanNodeV>, PlanFailure>
    decreases segs.len(),
{
    if segs.len() == 0 {
        Ok(Seq::empty())
    } else {
        let i = segs.len() - 1;
        match segments_steps(segs.drop_last(), head) {
            Err(e) => Err(e),
            Ok(prefix) => match segment_steps(segs[i], i, prev_var(segs, i, head)) {
                Err(e) => Err(e),
                Ok(s) => Ok(prefix + s),
            },
        }
    }
}

/// WHERE, RETURN, DISTINCT, ORDER BY, SKIP and LIMIT, in that order.
pub open spec fn tail_steps(q: QueryV) -> Seq<PlanNodeV> {
    (match q.where_clause {
        Some(e) => seq![PlanNodeV::Filter(e)],
        None => Seq::empty(),
    }) + seq![PlanNodeV::Project(q.return_items)] + (if q.distinct {
        seq![PlanNodeV::Distinct]
    } else {
        Seq::empty()
    }) + (match q.order_by {
        Some(o) => seq![PlanNodeV::Sort(o)],
        None => Seq::empty(),
    }) + (match q.skip {
        Some(s) => seq![PlanNodeV::Skip(s)],
        None => Seq::empty(),
    }) + (match q.limit {
        Some(l) => seq![PlanNodeV::Take(l)],
        None => Seq::empty(),
    })
}

/// The plan of a query: a scan of the head node, the segments' steps, then
/// the tail steps; or why there is none.
pub open spec fn spec_build(q: QueryV) -> Result<Seq<PlanNodeV>, PlanFailure> {
    if q.match_clauses.len() > 1 {
        Err(PlanFailure::MultipleMatch)
    } else if q.match_clauses.len() == 0 {
        Err(PlanFailure::NoMatch)
    } else {
        let p = q.match_clauses[0];
        if p.segments.len() > 3 {
            Err(PlanFailure::TooManyHops)
        } else {
            let hv = head_var(p.head);
            let label = match p.head.label {
                Some(l) => match spec_label_kind(l) {
                    Some(k) => Ok(Some(k)),
                    None => Err(PlanFailure::UnknownLabel(l)),
                },
                None => Ok(None),
            };
            match label {
                Err(e) => Err(e),
                Ok(k) => match segments_steps(p.segments, hv) {
                    Err(e) => Err(e),
                    Ok(mid) => Ok(seq![PlanNodeV::Scan { var: hv, label: k, props: p.head.properties }] + mid
                        + tail_steps(q)),
                },
            }
        }
    }
}

/// Map a Cypher label to its node kind; an unknown label is an error.
pub fn label_to_kind(label: &str) -> (r: Result<NodeKind, CypherError>)
    ensures
        match r {
            Ok(k) => spec_label_kind(label@) == Some(k),
            Err(e) => spec_label_kind(label@) is None && reports(e, PlanFailure::UnknownLabel(label@)),
        },
{
    if str_eq(label, "File") {
        Ok(NodeKind::File)
    } else if str_eq(label, "Module") {
        Ok(NodeKind::Module)
    } else if str_eq(label, "Function") {
        Ok(NodeKind::Function)
    } else if str_eq(label, "Class") {
        Ok(NodeKind::Class)
    } else if str_eq(label, "Struct") {
        Ok(NodeKind::Struct)
    } else if str_eq(label, "Enum") {
        Ok(NodeKind::Enum)
    } else if str_eq(label, "Trait") {
        Ok(NodeKind::Trait)
    } else if str_eq(label, "Method") {
        Ok(NodeKind::Method)
    } else if str_eq(label, "Route") {
        Ok(NodeKind::Route)
    } else {
        let mut msg = String::from_str("unknown node label `");
        msg.append(label);
        msg.append("`; valid labels: File, Module, Function, Class, Struct, Enum, Trait, Method, Route");
        Err(CypherError::Execute { msg })
    }
}

/// The display name of a node kind (the label used in queries).
pub fn kind_name(kind: NodeKind) -> (r: &'static str)
    ensures
        r@ == spec_kind_name(kind),
{
    match kind {
        NodeKind::File => "File",
        NodeKind::Module => "Module",
        NodeKind::Function => "Function",
        NodeKind::Class => "Class",
        NodeKind::Struct => "Struct",
        NodeKind::Enum => "Enum",
        NodeKind::Trait => "Trait",
        NodeKind::Method => "Method",
        NodeKind::Route => "Route",
    }
}

/// Every kind's name is a label that plans back to that kind.
pub proof fn kind_name_is_label(k: NodeKind)
    ensures
        spec_label_kind(spec_kind_name(k)) == Some(k),
{
    reveal_strlit("File");
    reveal_strlit("Module");
    reveal_strlit("Function");
    reveal_strlit("Class");
    reveal_strlit("Struct");
    reveal_strlit("Enum");
    reveal_strlit("Trait");
    reveal_strlit("Method");
    reveal_strlit("Route");
    assert("File"@.len() == 4 && "Module"@.len() == 6 && "Function"@.len() == 8 && "Class"@.len() == 5);
    assert("Struct"@.len() == 6 && "Enum"@.len() == 4 && "Trait"@.len() == 5 && "Method"@.len() == 6);
    assert("Route"@.len() == 5);
    assert("Module"@[0] == 'M' && "Module"@[1] == 'o' && "Method"@[0] == 'M' && "Method"@[1] == 'e');
    assert("Struct"@[0] == 'S' && "File"@[0] == 'F' && "Enum"@[0] == 'E');
    assert("Class"@[0] == 'C' && "Trait"@[0] == 'T' && "Route"@[0] == 'R');
    match k {
        NodeKind::File => {
            assert(spec_label_kind(spec_kind_name(NodeKind::File)) == Some(NodeKind::File));
        },
        NodeKind::Module => {
            assert(spec_label_kind(spec_kind_name(NodeKind::Module)) == Some(NodeKind::Module));
        },
        NodeKind::Function => {
            assert(spec_label_kind(spec_kind_name(NodeKind::Function)) == Some(NodeKind::Function));
        },
        NodeKind::Class => {
            assert(spec_label_kind(spec_kind_name(NodeKind::Class)) == Some(NodeKind::Class));
        },
        NodeKind::Struct => {
            assert(spec_label_kind(spec_kind_name(NodeKind::Struct)) == Some(NodeKind::Struct));
        },
        NodeKind::Enum => {
            assert(spec_label_kind(spec_kind_name(NodeKind::Enum)) == Some(NodeKind::Enum));
        },
        NodeKind::Trait => {
            assert(spec_label_kind(spec_kind_name(NodeKind::Trait)) == Some(NodeKind::Trait));
        },
        NodeKind::Method => {
            assert(spec_label_kind(spec_kind_name(NodeKind::Method)) == Some(NodeKind::Method));
        },
        NodeKind::Route => {
            assert(spec_label_kind(spec_kind_name(NodeKind::Route)) == Some(NodeKind::Route));
        },
    }
}

/// Once a prefix of the segments fails to plan, the whole pattern fails the
/// same way.
proof fn segments_error_extends(segs: Seq<(RelPatV, NodePatV)>, j: int, head: Seq<char>)
    requires
        0 <= j <= segs.len(),
        segments_steps(segs.subrange(0, j), head) is Err,
    ensures
        segments_steps(segs, head) == segments_steps(segs.subrange(0, j), head),
    decreases segs.len(),
{
    if j == segs.len() {
        assert(segs.subrange(0, j) =~= segs);
    } else {
        assert(segs.drop_last().subrange(0, j) =~= segs.subrange(0, j));
        segments_error_extends(segs.drop_last(), j, head);
    }
}

fn clone_strings(v: &Vec<String>) -> (r: Vec<String>)
    ensures
        strs_view(r@) == strs_view(v@),
{
    let mut r: Vec<String> = Vec::new();
    let mut i: usize = 0;
    while i < v.len()
        invariant
            i <= v.len(),
            r@.len() == i,
            forall|k: int| 0 <= k < i ==> #[trigger] r@[k]@ == v@[k]@,
        decreases v.len() - i,
    {
        r.push(v[i].clone());
        i = i + 1;
    }
    assert(strs_view(r@) =~= strs_view(v@));
    r
}

fn clone_opt_string(o: &Option<String>) -> (r: Option<String>)
    ensures
        crate::cypher::ast::opt_str_view(r) == crate::cypher::ast::opt_str_view(*o),
{
    match o {
        Some(s) => Some(s.clone()),
        None => None,
    }
}

fn clone_props(v: &Vec<(String, Lit)>) -> (r: Vec<(String, Lit)>)
    ensures
        props_view(r@) == props_view(v@),
{
    let mut r: Vec<(String, Lit)> = Vec::new();
    let mut i: usize = 0;
    while i < v.len()
        invariant
            i <= v.len(),
            r@.len() == i,
            forall|k: int| 0 <= k < i ==> #[trigger] r@[k].0@ == v@[k].0@ && r@[k].1@ == v@[k].1@,
        decreases v.len() - i,
    {
        r.push((v[i].0.clone(), v[i].1.duplicate()));
        i = i + 1;
    }
    assert(props_view(r@) =~= props_view(v@));
    r
}

fn kind_filter_node(to: &String, k: NodeKind) -> (f: PlanNode)
    ensures
        f@ == kind_filter(to@, k),
{
    let lhs = Expr::Prop(to.clone(), String::from_str("kind"));
    let rhs = Expr::Lit(Lit::Str(String::from_str(kind_name(k))));
    assert(lhs@ == ExprV::Prop(to@, "kind"@));
    assert(rhs@ == ExprV::Lit(LitV::Str(spec_kind_name(k))));
    let e = Expr::Binary(Box::new(lhs), BinOp::Eq, Box::new(rhs));
    assert(e@ == ExprV::Binary(Box::new(lhs@), BinOp::Eq, Box::new(rhs@)));
    PlanNode::Filter(e)
}

fn prop_filter_node(to: &String, p: &(String, Lit)) -> (f: PlanNode)
    ensures
        f@ == prop_filter(to@, (p.0@, p.1@)),
{
    let lhs = Expr::Prop(to.clone(), p.0.clone());
    let rhs = Expr::Lit(p.1.duplicate());
    assert(lhs@ == ExprV::Prop(to@, p.0@));
    assert(rhs@ == ExprV::Lit(p.1@));
    let e = Expr::Binary(Box::new(lhs), BinOp::Eq, Box::new(rhs));
    assert(e@ == ExprV::Binary(Box::new(lhs@), BinOp::Eq, Box::new(rhs@)));
    PlanNode::Filter(e)
}

fn hop_name(node: &NodePat, i: usize) -> (to: String)
    requires
        i < 3,
    ensures
        to@ == hop_var(node@, i as int),
{
    match &node.var {
        Some(v) => v.clone(),
        None => {
            let mut s = String::from_str("_n");
            push_decimal(&mut s, (i + 1) as u64);
            s
        },
    }
}

/// Appends the steps of segment `i` (expand from `prev`, then the hop
/// node's filters) and returns the variable the hop binds.
fn push_segment(out: &mut Vec<PlanNode>, seg: &(RelPat, NodePat), i: usize, prev: String) -> (r: Result<String, CypherError>)
    requires
        i < 3,
    ensures
        match r {
            Ok(to) => segment_steps((seg.0@, seg.1@), i as int, prev@) matches Ok(s)
                && plan_view(final(out)@) == plan_view(old(out)@) + s && to@ == hop_var(seg.1@, i as int),
            Err(e) => segment_steps((seg.0@, seg.1@), i as int, prev@) matches Err(f) && reports(e, f),
        },
{
    let (rel, node) = seg;
    let to = hop_name(node, i);
    let ghost to_v = to@;
    let kind: Option<NodeKind> = match &node.label {
        Some(l) => match label_to_kind(l.as_str()) {
            Ok(k) => Some(k),
            Err(e) => { return Err(e); },
        },
        None => None,
    };
    let ghost before = plan_view(out@);
    let expand = PlanNode::Expand {
        from: prev,
        edge: EdgePat { types: clone_strings(&rel.types), direction: rel.direction, var: clone_opt_string(&rel.var) },
        to: to.clone(),
    };
    let ghost mut expected: Seq<PlanNodeV> = seq![expand@];
    out.push(expand);
    assert(plan_view(out@) =~= before + expected);
    match kind {
        Some(k) => {
            let f = kind_filter_node(&to, k);
            let ghost pre = plan_view(out@);
            out.push(f);
            proof {
                expected = expected.push(kind_filter(to_v, k));
                assert(plan_view(out@) =~= pre.push(kind_filter(to_v, k)));
            }
        },
        None => {},
    }
    let ghost pv = props_view(node.properties@);
    let mut j: usize = 0;
    assert(prop_filters(to_v, pv.subrange(0, 0)) =~= Seq::<PlanNodeV>::empty());
    while j < node.properties.len()
        invariant
            j <= node.properties.len(),
            to@ == to_v,
            pv == props_view(node.properties@),
            plan_view(out@) == before + expected + prop_filters(to_v, pv.subrange(0, j as int)),
        decreases node.properties.len() - j,
    {
        let f = prop_filter_node(&to, &node.properties[j]);
        let ghost pre = plan_view(out@);
        out.push(f);
        j = j + 1;
        assert(plan_view(out@) =~= pre.push(prop_filter(to_v, pv[j - 1])));
        assert(prop_filters(to_v, pv.subrange(0, j as int)) =~= prop_filters(to_v, pv.subrange(0, (j - 1) as int)).push(
            prop_filter(to_v, pv[j - 1]),
        ));
    }
    assert(pv.subrange(0, node.properties@.len() as int) =~= pv);
    Ok(to)
}

/// Appends the steps of every segment, in order.
fn push_segments(out: &mut Vec<PlanNode>, segs: &Vec<(RelPat, NodePat)>, head: String) -> (r: Result<(), CypherError>)
    requires
        segs.len() <= 3,
    ensures
        match r {
            Ok(_) => segments_steps(segs@.map_values(|s: (RelPat, NodePat)| (s.0@, s.1@)), head@) matches Ok(mid)
                && plan_view(final(out)@) == plan_view(old(out)@) + mid,
            Err(e) => segments_steps(segs@.map_values(|s: (RelPat, NodePat)| (s.0@, s.1@)), head@) matches Err(f)
                && reports(e, f),
        },
{
    let ghost sv = segs@.map_values(|s: (RelPat, NodePat)| (s.0@, s.1@));
    let ghost before = plan_view(out@);
    let mut prev: String = head;
    let ghost hv = prev@;
    let mut i: usize = 0;
    assert(sv.subrange(0, 0) =~= Seq::<(RelPatV, NodePatV)>::empty());
    assert(plan_view(out@) =~= before + Seq::<PlanNodeV>::empty());
    while i < segs.len()
        invariant
            i <= segs.len() <= 3,
            sv == segs@.map_values(|s: (RelPat, NodePat)| (s.0@, s.1@)),
            prev@ == prev_var(sv, i as int, hv),
            hv == head@,
            segments_steps(sv.subrange(0, i as int), hv) matches Ok(mid) && plan_view(out@) == before + mid,
        decreases segs.len() - i,
    {
        let ghost sub = sv.subrange(0, (i + 1) as int);
        assert(sub.drop_last() =~= sv.subrange(0, i as int));
        assert(sub.len() == i + 1);
        assert(sub[i as int] == sv[i as int]);
        assert(prev_var(sub, i as int, hv) == prev_var(sv, i as int, hv));
        assert((segs@[i as int].0@, segs@[i as int].1@) == sv[i as int]);
        let ghost mid0 = plan_view(out@);
        let to = match push_segment(out, &segs[i], i, prev) {
            Ok(t) => t,
            Err(e) => {
                proof {
                    let f = segment_steps(sv[i as int], i as int, prev_var(sv, i as int, hv))->Err_0;
                    assert(segments_steps(sub, hv) == Err::<Seq<PlanNodeV>, PlanFailure>(f));
                    segments_error_extends(sv, (i + 1) as int, hv);
                    assert(segments_steps(sv, hv) == Err::<Seq<PlanNodeV>, PlanFailure>(f));
                    assert(reports(e, f));
                    assert(hv == head@);
                }
                return Err(e);
            },
        };
        proof {
            let mid_prev = segments_steps(sv.subrange(0, i as int), hv)->Ok_0;
            let s = segment_steps(sv[i as int], i as int, prev_var(sv, i as int, hv))->Ok_0;
            assert(plan_view(out@) =~= before + (mid_prev + s));
        }
        prev = to;
        i = i + 1;
    }
    assert(sv.subrange(0, sv.len() as int) =~= sv);
    Ok(())
}

/// Appends WHERE, RETURN, DISTINCT, ORDER BY, SKIP and LIMIT steps.
fn push_tail(out: &mut Vec<PlanNode>, q: Query)
    ensures
        plan_view(final(out)@) == plan_view(old(out)@) + tail_steps(q@),
{
    let ghost before = plan_view(out@);
    let ghost qv = q@;
    let Query { match_clauses: _, where_clause, return_clause, order_by, skip, limit, distinct } = q;
    match where_clause {
        Some(e) => { out.push(PlanNode::Filter(e)); },
        None => {},
    }
    out.push(PlanNode::Project(return_clause.items));
    if distinct {
        out.push(PlanNode::Distinct);
    }
    match order_by {
        Some(o) => { out.push(PlanNode::Sort(o)); },
        None => {},
    }
    match skip {
        Some(s) => { out.push(PlanNode::Skip(s)); },
        None => {},
    }
    match limit {
        Some(l) => { out.push(PlanNode::Take(l)); },
        None => {},
    }
    assert(plan_view(out@) =~= before + tail_steps(qv));
}

/// The planner.
pub struct Planner;

impl Planner {
    /// Convert a parsed `Query` into an executable pipeline, applying the
    /// scope rules that only the planner can check.
    pub fn build(query: Query) -> (r: Result<Vec<PlanNode>, CypherError>)
        ensures
            match r {
                Ok(p) => spec_build(query@) == Ok::<_, PlanFailure>(plan_view(p@)),
                Err(e) => spec_build(query@) matches Err(f) && reports(e, f),
            },
    {
        let ghost qv = query@;
        let mut query = query;
        if query.match_clauses.len() > 1 {
            return Err(CypherError::unsupported(Unsupported::MultipleMatch));
        }
        let mc: MatchClause = match query.match_clauses.pop() {
            Some(m) => m,
            None => { return Err(CypherError::parse(String::from_str("query has no MATCH clause"), (0, 0))); },
        };
        assert(mc.pattern@ == qv.match_clauses[0]);
        assert(tail_steps(query@) == tail_steps(qv));
        let pattern = mc.pattern;
        if pattern.segments.len() > 3 {
            return Err(CypherError::unsupported(Unsupported::ChainTooLong));
        }
        let head_name: String = match &pattern.head.var {
            Some(v) => v.clone(),
            None => String::from_str("_n0"),
        };
        let head_label: Option<NodeKind> = match &pattern.head.label {
            Some(l) => match label_to_kind(l.as_str()) {
                Ok(k) => Some(k),
                Err(e) => { return Err(e); },
            },
            None => None,
        };
        let ghost pv = pattern@;
        assert(pv.segments =~= pattern.segments@.map_values(|s: (RelPat, NodePat)| (s.0@, s.1@)));
        assert(head_name@ == head_var(pv.head));
        let mut pipeline: Vec<PlanNode> = Vec::new();
        pipeline.push(PlanNode::Scan { var: head_name.clone(), label: head_label, props: clone_props(&pattern.head.properties) });
        let ghost scan_v = PlanNodeV::Scan { var: head_var(pv.head), label: head_label, props: pv.head.properties };
        assert(plan_view(pipeline@) =~= seq![scan_v]);
        match push_segments(&mut pipeline, &pattern.segments, head_name) {
            Ok(_) => {},
            Err(e) => { return Err(e); },
        }
        let ghost mid = segments_steps(pv.segments, head_var(pv.head))->Ok_0;
        assert(plan_view(pipeline@) == seq![scan_v] + mid);
        push_tail(&mut pipeline, query);
        assert(plan_view(pipeline@) == seq![scan_v] + mid + tail_steps(qv));
        Ok(pipeline)
    }
}


/// The expand steps of a plan, in order.
pub open spec fn expands_of(s: Seq<PlanNodeV>) -> Seq<PlanNodeV>
    decreases s.len(),
{
    if s.len() == 0 {
        Seq::empty()
    } else if s.last() is Expand {
        expands_of(s.drop_last()).push(s.last())
    } else {
        expands_of(s.drop_last())
    }
}

/// The expand step of segment `i`: from the variable bound before it, along
/// its relationship, to its hop node's variable.
pub open spec fn segment_expand(segs: Seq<(RelPatV, NodePatV)>, i: int, head: Seq<char>) -> PlanNodeV {
    PlanNodeV::Expand {
        from: prev_var(segs, i, head),
        edge: EdgePatV { types: segs[i].0.types, direction: segs[i].0.direction, var: segs[i].0.var },
        to: hop_var(segs[i].1, i),
    }
}

proof fn expands_of_concat(a: Seq<PlanNodeV>, b: Seq<PlanNodeV>)
    ensures
        expands_of(a + b) == expands_of(a) + expands_of(b),
    decreases b.len(),
{
    if b.len() == 0 {
        assert(a + b =~= a);
        assert(expands_of(a) + expands_of(b) =~= expands_of(a));
    } else {
        expands_of_concat(a, b.drop_last());
        assert((a + b).drop_last() =~= a + b.drop_last());
        assert((a + b).last() == b.last());
        if b.last() is Expand {
            assert(expands_of(a) + expands_of(b.drop_last()).push(b.last()) =~= (expands_of(a) + expands_of(
                b.drop_last(),
            )).push(b.last()));
        }
    }
}

proof fn expands_of_single(x: PlanNodeV)
    requires
        x is Expand,
    ensures
        expands_of(seq![x]) == seq![x],
{
    let e = Seq::<PlanNodeV>::empty();
    assert(seq![x].drop_last() =~= e);
    assert(expands_of(e) == e);
    assert(seq![x].len() == 1);
    assert(seq![x].last() == x);
    assert(expands_of(seq![x]) == expands_of(seq![x].drop_last()).push(x));
    assert(Seq::<PlanNodeV>::empty().push(x) =~= seq![x]);
}

proof fn expands_of_filters(s: Seq<PlanNodeV>)
    requires
        forall|k: int| 0 <= k < s.len() ==> !((#[trigger] s[k]) is Expand),
    ensures
        expands_of(s) == Seq::<PlanNodeV>::empty(),
    decreases s.len(),
{
    if s.len() > 0 {
        assert(!(s[s.len() - 1] is Expand));
        assert forall|k: int| 0 <= k < s.drop_last().len() implies !((#[trigger] s.drop_last()[k]) is Expand) by {
            assert(!(s[k] is Expand));
        }
        expands_of_filters(s.drop_last());
    }
}

proof fn segment_steps_shape(seg: (RelPatV, NodePatV), i: int, prev: Seq<char>)
    requires
        segment_steps(seg, i, prev) is Ok,
    ensures
        ({
            let st = segment_steps(seg, i, prev)->Ok_0;
            &&& expands_of(st) == seq![st[0]]
            &&& st.len() >= 1
            &&& st[0] == (PlanNodeV::Expand {
                from: prev,
                edge: EdgePatV { types: seg.0.types, direction: seg.0.direction, var: seg.0.var },
                to: hop_var(seg.1, i),
            })
            &&& forall|k: int| 0 <= k < st.len() ==> (#[trigger] st[k]) is Expand || st[k] is Filter
        }),
{
    let to = hop_var(seg.1, i);
    let pf = prop_filters(to, seg.1.properties);
    assert forall|k: int| 0 <= k < pf.len() implies (#[trigger] pf[k]) is Filter by {}
    expands_of_filters(pf);
    let st = segment_steps(seg, i, prev)->Ok_0;
    match seg.1.label {
        Some(l) => {
            let head = seq![st[0], st[1]];
            assert(st =~= head + pf);
            assert(head =~= seq![st[0]] + seq![st[1]]);
            expands_of_filters(seq![st[1]]);
            expands_of_concat(seq![st[0]], seq![st[1]]);
            expands_of_single(st[0]);
            expands_of_concat(head, pf);
            assert(expands_of(seq![st[0]]) + expands_of(seq![st[1]]) =~= seq![st[0]]);
            assert(seq![st[0]] + expands_of(pf) =~= seq![st[0]]);
        },
        None => {
            assert(st =~= seq![st[0]] + pf);
            expands_of_concat(seq![st[0]], pf);
            expands_of_single(st[0]);
            assert(seq![st[0]] + expands_of(pf) =~= seq![st[0]]);
        },
    }
}

proof fn segments_steps_shape(segs: Seq<(RelPatV, NodePatV)>, head: Seq<char>)
    requires
        segments_steps(segs, head) is Ok,
    ensures
        ({
            let mid = segments_steps(segs, head)->Ok_0;
            &&& expands_of(mid) == Seq::new(segs.len(), |i: int| segment_expand(segs, i, head))
            &&& forall|k: int| 0 <= k < mid.len() ==> (#[trigger] mid[k]) is Expand || mid[k] is Filter
        }),
    decreases segs.len(),
{
    if segs.len() == 0 {
        assert(Seq::new(0, |i: int| segment_expand(segs, i, head)) =~= Seq::<PlanNodeV>::empty());
    } else {
        let i = segs.len() - 1;
        let init = segs.drop_last();
        segments_steps_shape(init, head);
        let prefix = segments_steps(init, head)->Ok_0;
        let st = segment_steps(segs[i], i, prev_var(segs, i, head))->Ok_0;
        segment_steps_shape(segs[i], i, prev_var(segs, i, head));
        expands_of_concat(prefix, st);
        let mid = prefix + st;
        assert forall|k: int| 0 <= k < mid.len() implies (#[trigger] mid[k]) is Expand || mid[k] is Filter by {
            if k < prefix.len() {
                assert(mid[k] == prefix[k]);
            } else {
                assert(mid[k] == st[k - prefix.len()]);
            }
        }
        assert forall|j: int| 0 <= j < init.len() implies segment_expand(init, j, head) == segment_expand(segs, j, head) by {
            if j > 0 {
                assert(init[j - 1] == segs[j - 1]);
            }
            assert(init[j] == segs[j]);
        }
        assert(Seq::new(init.len(), |j: int| segment_expand(init, j, head)) + seq![st[0]] =~= Seq::new(
            segs.len(),
            |j: int| segment_expand(segs, j, head),
        ));
    }
}

/// The shape of every plan: a scan of the head node first; then one expand
/// per relationship segment, each from the variable bound before it to its
/// hop node's variable, with only filters between them; then the WHERE,
/// RETURN, DISTINCT, ORDER BY, SKIP and LIMIT steps in that order. The plan
/// holds no other expand step: its expands are those, one per segment, in
/// segment order.
pub proof fn plan_shape(q: QueryV)
    requires
        spec_build(q) is Ok,
    ensures
        ({
            let p = spec_build(q)->Ok_0;
            let pat = q.match_clauses[0];
            let n = tail_steps(q).len();
            let hv = head_var(pat.head);
            &&& q.match_clauses.len() == 1
            &&& p.len() >= 1 + n
            &&& p[0] matches PlanNodeV::Scan { var, .. } && var == hv
            &&& p.subrange(p.len() - n, p.len() as int) == tail_steps(q)
            &&& expands_of(p.subrange(1, p.len() - n)) == Seq::new(
                pat.segments.len(),
                |i: int| segment_expand(pat.segments, i, hv),
            )
            &&& expands_of(p) == Seq::new(pat.segments.len(), |i: int| segment_expand(pat.segments, i, hv))
            &&& forall|k: int| 1 <= k < p.len() - n ==> (#[trigger] p[k]) is Expand || p[k] is Filter
        }),
{
    let p = spec_build(q)->Ok_0;
    let pat = q.match_clauses[0];
    let hv = head_var(pat.head);
    let mid = segments_steps(pat.segments, hv)->Ok_0;
    segments_steps_shape(pat.segments, hv);
    let scan = p[0];
    let tail = tail_steps(q);
    assert(p =~= seq![scan] + mid + tail);
    assert(p.subrange(p.len() - tail.len(), p.len() as int) =~= tail);
    assert(p.subrange(1, p.len() - tail.len()) =~= mid);
    assert forall|k: int| 1 <= k < p.len() - tail.len() implies (#[trigger] p[k]) is Expand || p[k] is Filter by {
        assert(p[k] == mid[k - 1]);
    }
    assert forall|k: int| 0 <= k < tail.len() implies !((#[trigger] tail[k]) is Expand) by {}
    expands_of_filters(tail);
    expands_of_filters(seq![scan]);
    expands_of_concat(seq![scan], mid);
    expands_of_concat(seq![scan] + mid, tail);
    assert(Seq::<PlanNodeV>::empty() + expands_of(mid) =~= expands_of(mid));
    assert(expands_of(mid) + Seq::<PlanNodeV>::empty() =~= expands_of(mid));
}

} // verus!
