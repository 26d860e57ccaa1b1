//! Cypher-Lite executor: runs a plan over a read-only snapshot of the graph.
//!
//! The snapshot lists the stored nodes and edges in key order; the store
//! layer loads it inside one read transaction.

use vstd::prelude::*;
use crate::cypher::ast::{Direction, Lit, LitV, OrderItem, OrderItemV, ReturnExpr, ReturnExprV, ReturnItem, ReturnItemV};
use crate::cypher::error::CypherError;
use crate::cypher::plan::{EdgePat, EdgePatV, PlanNode, PlanNodeV, kind_name, plan_view, spec_kind_name};
use crate::cypher::value::{
    EdgeValue, EdgeValueV, NodeValue, NodeValueV, Row, RowV, Value, ValueV, compare_values, dotted, eval,
    eval_expr, eval_return, eval_return_expr, is_truthy, lit_to_value, lit_value, node_prop, node_prop_value,
    row_get, row_insert, truthy, values_eq, values_equal, values_order,
};
use crate::store::{NodeKind, NodeRecord, NodeRecordV};
use crate::text::{
    Compared, chars_compared, compare_strs, eq_ignoring_ascii_case, push_decimal, push_i64, spec_decimal,
    spec_i64_text, str_eq_ignore_ascii_case,
};

verus! {

/// Maximum rows a Scan or Expand may produce before the query is aborted.
pub const MAX_ROWS: usize = 100000;

/// A read-only snapshot of the graph: nodes by id, and edge keys
/// `(from, to, kind byte)`, each in key order.
pub struct GraphSnapshot {
    pub nodes: Vec<(u64, NodeRecord)>,
    pub edges: Vec<(u64, u64, u8)>,
}

pub struct GraphV {
    pub nodes: Seq<(u64, NodeRecordV)>,
    pub edges: Seq<(u64, u64, u8)>,
}

impl View for GraphSnapshot {
    type V = GraphV;

    open spec fn view(&self) -> GraphV {
        GraphV { nodes: self.nodes@.map_values(|n: (u64, NodeRecord)| (n.0, n.1@)), edges: self.edges@ }
    }
}

pub open spec fn rows_view(v: Seq<Row>) -> Seq<RowV> {
    v.map_values(|r: Row| r@)
}

/// The message of the row-cap error of a Scan, or of an Expand that does
/// not run against the arrow.
pub open spec fn cap_message() -> Seq<char> {
    "query exceeded internal row cap of 100000; add a LIMIT clause to your query"@
}

/// The message of the row-cap error of an Expand against the arrow.
pub open spec fn reverse_cap_message() -> Seq<char> {
    "query exceeded internal row cap of 100000; add a LIMIT clause"@
}

/// The value a node record is bound as.
pub open spec fn node_value_of(id: u64, rec: NodeRecordV) -> NodeValueV {
    NodeValueV {
        id,
        fqn: rec.fqn,
        kind: spec_kind_name(rec.kind),
        file: rec.file,
        byte_start: rec.byte_start,
        byte_end: rec.byte_end,
    }
}

/// Every `key: literal` of a pattern holds of the node.
pub open spec fn props_hold(n: NodeValueV, props: Seq<(Seq<char>, LitV)>) -> bool {
    forall|i: int| 0 <= i < props.len() ==> values_eq(node_prop(n, #[trigger] props[i].0), lit_value(props[i].1))
}

/// Whether a Scan keeps node `n`.
pub open spec fn scan_hit(label: Option<NodeKind>, props: Seq<(Seq<char>, LitV)>, n: (u64, NodeRecordV)) -> bool {
    (match label {
        Some(k) => n.1.kind == k,
        None => true,
    }) && props_hold(node_value_of(n.0, n.1), props)
}

pub open spec fn bind_all(rows: Seq<RowV>, var: Seq<char>, v: ValueV) -> Seq<RowV> {
    rows.map_values(|r: RowV| row_insert(r, var, v))
}

/// Scan output: for each kept node in order, every input row extended with
/// the node.
pub open spec fn scan_rows(
    nodes: Seq<(u64, NodeRecordV)>,
    rows: Seq<RowV>,
    var: Seq<char>,
    label: Option<NodeKind>,
    props: Seq<(Seq<char>, LitV)>,
) -> Seq<RowV>
    decreases nodes.len(),
{
    if nodes.len() == 0 {
        Seq::empty()
    } else {
        scan_rows(nodes.drop_last(), rows, var, label, props) + if scan_hit(label, props, nodes.last()) {
            bind_all(rows, var, ValueV::Node(node_value_of(nodes.last().0, nodes.last().1)))
        } else {
            Seq::empty()
        }
    }
}

/// The name an edge kind byte is shown as.
pub open spec fn edge_kind_label(b: u8) -> Seq<char> {
    if b == 0 {
        "CALLS"@
    } else if b == 1 {
        "ROUTES"@
    } else {
        "UNKNOWN"@
    }
}

/// No type means any type; otherwise one of the types, ignoring ASCII case.
pub open spec fn types_match(types: Seq<Seq<char>>, k: Seq<char>) -> bool {
    types.len() == 0 || exists|i: int| 0 <= i < types.len() && eq_ignoring_ascii_case(#[trigger] types[i], k)
}

/// The first node record with id `id`, searching from `i`.
pub open spec fn node_lookup(nodes: Seq<(u64, NodeRecordV)>, id: u64, i: int) -> Option<NodeRecordV>
    decreases nodes.len() - i,
{
    if i < 0 || i >= nodes.len() {
        None
    } else if nodes[i].0 == id {
        Some(nodes[i].1)
    } else {
        node_lookup(nodes, id, i + 1)
    }
}

/// A row extended with the reached node and, if the pattern names it, the
/// edge.
pub open spec fn bound_row(r: RowV, to: Seq<char>, n: NodeValueV, evar: Option<Seq<char>>, e: EdgeValueV) -> RowV {
    let r1 = row_insert(r, to, ValueV::Node(n));
    match evar {
        Some(v) => row_insert(r1, v, ValueV::Edge(e)),
        None => r1,
    }
}

/// Whether edge `e` leads out of (or, against the arrow, into) `id` with a
/// matching type and an existing node at its other end.
pub open spec fn edge_hit(g: GraphV, e: (u64, u64, u8), id: u64, edge: EdgePatV) -> bool {
    let reverse = edge.direction == Direction::RightToLeft;
    let near = if reverse { e.1 } else { e.0 };
    let far = if reverse { e.0 } else { e.1 };
    near == id && types_match(edge.types, edge_kind_label(e.2)) && node_lookup(g.nodes, far, 0) is Some
}

/// The row an edge hit produces.
pub open spec fn edge_row(g: GraphV, e: (u64, u64, u8), r: RowV, edge: EdgePatV, to: Seq<char>) -> RowV {
    let far = if edge.direction == Direction::RightToLeft { e.0 } else { e.1 };
    bound_row(
        r,
        to,
        node_value_of(far, node_lookup(g.nodes, far, 0)->Some_0),
        edge.var,
        EdgeValueV { from: e.0, to: e.1, kind: edge_kind_label(e.2) },
    )
}

/// The rows one input row expands to over the given edges, in edge order.
pub open spec fn edge_rows(g: GraphV, edges: Seq<(u64, u64, u8)>, r: RowV, id: u64, edge: EdgePatV, to: Seq<char>) -> Seq<RowV>
    decreases edges.len(),
{
    if edges.len() == 0 {
        Seq::empty()
    } else {
        let prev = edge_rows(g, edges.drop_last(), r, id, edge, to);
        if edge_hit(g, edges.last(), id, edge) {
            prev.push(edge_row(g, edges.last(), r, edge, to))
        } else {
            prev
        }
    }
}

/// The rows one input row expands to: none unless `from` is bound to a node.
pub open spec fn expand_row(g: GraphV, r: RowV, from: Seq<char>, edge: EdgePatV, to: Seq<char>) -> Seq<RowV> {
    match row_get(r, from) {
        Some(ValueV::Node(n)) => edge_rows(g, g.edges, r, n.id, edge, to),
        _ => Seq::empty(),
    }
}

pub open spec fn expand_rows(g: GraphV, rows: Seq<RowV>, from: Seq<char>, edge: EdgePatV, to: Seq<char>) -> Seq<RowV>
    decreases rows.len(),
{
    if rows.len() == 0 {
        Seq::empty()
    } else {
        expand_rows(g, rows.drop_last(), from, edge, to) + expand_row(g, rows.last(), from, edge, to)
    }
}

/// The rows a WHERE expression keeps.
pub open spec fn filter_rows(rows: Seq<RowV>, e: crate::cypher::ast::ExprV) -> Seq<RowV>
    decreases rows.len(),
{
    if rows.len() == 0 {
        Seq::empty()
    } else if truthy(eval(e, rows.last())) {
        filter_rows(rows.drop_last(), e).push(rows.last())
    } else {
        filter_rows(rows.drop_last(), e)
    }
}

/// The column a RETURN item is named by.
pub open spec fn column_name(item: ReturnItemV) -> Seq<char> {
    match item.alias {
        Some(a) => a,
        None => match item.expr {
            ReturnExprV::Var(v) => v,
            ReturnExprV::Prop(v, p) => dotted(v, p),
        },
    }
}

/// The projection of a row: each item's value under its column name, later
/// items overwriting earlier columns of the same name.
pub open spec fn project_row(r: RowV, items: Seq<ReturnItemV>) -> RowV
    decreases items.len(),
{
    if items.len() == 0 {
        Seq::empty()
    } else {
        row_insert(project_row(r, items.drop_last()), column_name(items.last()), eval_return(items.last().expr, r))
    }
}

proof fn scan_len_monotone(
    nodes: Seq<(u64, NodeRecordV)>,
    rows: Seq<RowV>,
    var: Seq<char>,
    label: Option<NodeKind>,
    props: Seq<(Seq<char>, LitV)>,
    k: int,
)
    requires
        0 <= k <= nodes.len(),
    ensures
        scan_rows(nodes.subrange(0, k), rows, var, label, props).len() <= scan_rows(nodes, rows, var, label, props).len(),
    decreases nodes.len(),
{
    if k == nodes.len() {
        assert(nodes.subrange(0, k) =~= nodes);
    } else {
        assert(nodes.drop_last().subrange(0, k) =~= nodes.subrange(0, k));
        scan_len_monotone(nodes.drop_last(), rows, var, label, props, k);
    }
}

proof fn edge_rows_len_monotone(g: GraphV, edges: Seq<(u64, u64, u8)>, r: RowV, id: u64, edge: EdgePatV, to: Seq<char>, k: int)
    requires
        0 <= k <= edges.len(),
    ensures
        edge_rows(g, edges.subrange(0, k), r, id, edge, to).len() <= edge_rows(g, edges, r, id, edge, to).len(),
    decreases edges.len(),
{
    if k == edges.len() {
        assert(edges.subrange(0, k) =~= edges);
    } else {
        assert(edges.drop_last().subrange(0, k) =~= edges.subrange(0, k));
        edge_rows_len_monotone(g, edges.drop_last(), r, id, edge, to, k);
    }
}

proof fn expand_len_monotone(g: GraphV, rows: Seq<RowV>, from: Seq<char>, edge: EdgePatV, to: Seq<char>, k: int)
    requires
        0 <= k <= rows.len(),
    ensures
        expand_rows(g, rows.subrange(0, k), from, edge, to).len() <= expand_rows(g, rows, from, edge, to).len(),
    decreases rows.len(),
{
    if k == rows.len() {
        assert(rows.subrange(0, k) =~= rows);
    } else {
        assert(rows.drop_last().subrange(0, k) =~= rows.subrange(0, k));
        expand_len_monotone(g, rows.drop_last(), from, edge, to, k);
    }
}

fn cap_error(reverse: bool) -> (e: CypherError)
    ensures
        e matches CypherError::Execute { msg } && msg@ == if reverse { reverse_cap_message() } else { cap_message() },
{
    if reverse {
        CypherError::Execute { msg: String::from_str("query exceeded internal row cap of 100000; add a LIMIT clause") }
    } else {
        CypherError::Execute {
            msg: String::from_str("query exceeded internal row cap of 100000; add a LIMIT clause to your query"),
        }
    }
}

/// The node value a stored record is bound as.
pub fn node_value(id: u64, rec: &NodeRecord) -> (n: NodeValue)
    ensures
        n@ == node_value_of(id, rec@),
{
    NodeValue {
        id,
        fqn: rec.fqn.clone(),
        kind: String::from_str(kind_name(rec.kind)),
        file: rec.file.clone(),
        byte_start: rec.byte_start,
        byte_end: rec.byte_end,
    }
}

/// Whether every `key: literal` pair holds of the node.
pub fn props_match(n: &NodeValue, props: &Vec<(String, Lit)>) -> (b: bool)
    ensures
        b == props_hold(n@, crate::cypher::ast::props_view(props@)),
{
    let ghost pv = crate::cypher::ast::props_view(props@);
    let mut i: usize = 0;
    while i < props.len()
        invariant
            i <= props.len(),
            pv == crate::cypher::ast::props_view(props@),
            forall|k: int| 0 <= k < i ==> values_eq(node_prop(n@, #[trigger] pv[k].0), lit_value(pv[k].1)),
        decreases props.len() - i,
    {
        let actual = node_prop_value(n, props[i].0.as_str());
        let expected = lit_to_value(&props[i].1);
        if !values_equal(&actual, &expected) {
            assert(!values_eq(node_prop(n@, pv[i as int].0), lit_value(pv[i as int].1)));
            return false;
        }
        i = i + 1;
    }
    true
}

/// The name an edge kind byte is shown as.
pub fn edge_kind_name(b: u8) -> (r: &'static str)
    ensures
        r@ == edge_kind_label(b),
{
    if b == 0 {
        "CALLS"
    } else if b == 1 {
        "ROUTES"
    } else {
        "UNKNOWN"
    }
}

/// Whether an edge of kind name `k` matches the pattern's types.
pub fn edge_types_match(edge: &EdgePat, k: &str) -> (b: bool)
    ensures
        b == types_match(edge@.types, k@),
{
    if edge.types.len() == 0 {
        return true;
    }
    let ghost tv = edge@.types;
    let mut i: usize = 0;
    while i < edge.types.len()
        invariant
            i <= edge.types.len(),
            tv == edge@.types,
            tv.len() == edge.types@.len(),
            forall|j: int| 0 <= j < i ==> !eq_ignoring_ascii_case(#[trigger] tv[j], k@),
        decreases edge.types.len() - i,
    {
        if str_eq_ignore_ascii_case(edge.types[i].as_str(), k) {
            assert(eq_ignoring_ascii_case(tv[i as int], k@));
            return true;
        }
        i = i + 1;
    }
    false
}

/// Only an Expand against the arrow looks at incoming edges.
pub fn direction_ok(edge: &EdgePat) -> (b: bool)
    ensures
        b == (edge.direction != Direction::RightToLeft),
{
    edge.direction != Direction::RightToLeft
}

fn lookup_node(g: &GraphSnapshot, id: u64) -> (r: Option<usize>)
    ensures
        match r {
            Some(i) => i < g.nodes@.len() && g.nodes@[i as int].0 == id && node_lookup(g@.nodes, id, 0) == Some(
                g.nodes@[i as int].1@,
            ),
            None => node_lookup(g@.nodes, id, 0) is None,
        },
{
    let ghost nv = g@.nodes;
    let mut i: usize = 0;
    while i < g.nodes.len()
        invariant
            i <= g.nodes.len(),
            nv == g@.nodes,
            nv.len() == g.nodes@.len(),
            node_lookup(nv, id, 0) == node_lookup(nv, id, i as int),
        decreases g.nodes.len() - i,
    {
        if g.nodes[i].0 == id {
            return Some(i);
        }
        i = i + 1;
    }
    None
}

fn scan(
    g: &GraphSnapshot,
    rows: &Vec<Row>,
    var: &String,
    label: Option<NodeKind>,
    props: &Vec<(String, Lit)>,
) -> (r: Result<Vec<Row>, CypherError>)
    ensures
        ({
            let s = scan_rows(g@.nodes, rows_view(rows@), var@, label, crate::cypher::ast::props_view(props@));
            match r {
                Ok(out) => rows_view(out@) == s && s.len() <= MAX_ROWS,
                Err(e) => s.len() > MAX_ROWS && (e matches CypherError::Execute { msg } && msg@ == cap_message()),
            }
        }),
{
    let ghost gn = g@.nodes;
    let ghost rv = rows_view(rows@);
    let ghost pv = crate::cypher::ast::props_view(props@);
    let mut out: Vec<Row> = Vec::new();
    let mut i: usize = 0;
    assert(gn.subrange(0, 0) =~= Seq::<(u64, NodeRecordV)>::empty());
    assert(rows_view(out@) =~= Seq::<RowV>::empty());
    while i < g.nodes.len()
        invariant
            i <= g.nodes.len(),
            gn == g@.nodes,
            gn.len() == g.nodes@.len(),
            rv == rows_view(rows@),
            pv == crate::cypher::ast::props_view(props@),
            rows_view(out@) == scan_rows(gn.subrange(0, i as int), rv, var@, label, pv),
            out@.len() <= MAX_ROWS,
        decreases g.nodes.len() - i,
    {
        let ghost sub = gn.subrange(0, (i + 1) as int);
        assert(sub.drop_last() =~= gn.subrange(0, i as int));
        assert(sub.last() == gn[i as int]);
        let id = g.nodes[i].0;
        let nv = node_value(id, &g.nodes[i].1);
        let label_ok = match label {
            Some(k) => g.nodes[i].1.kind == k,
            None => true,
        };
        if label_ok && props_match(&nv, props) {
            assert(scan_hit(label, pv, gn[i as int]));
            let ghost base = rows_view(out@);
            let ghost val = ValueV::Node(nv@);
            let mut j: usize = 0;
            assert(bind_all(rv.subrange(0, 0), var@, val) =~= Seq::<RowV>::empty());
            assert(rows_view(out@) =~= base + bind_all(rv.subrange(0, 0), var@, val));
            while j < rows.len()
                invariant
                    j <= rows.len(),
                    i < g.nodes.len(),
                    gn == g@.nodes,
                    gn.len() == g.nodes@.len(),
                    pv == crate::cypher::ast::props_view(props@),
                    sub == gn.subrange(0, (i + 1) as int),
                    sub.drop_last() == gn.subrange(0, i as int),
                    sub.last() == gn[i as int],
                    scan_hit(label, pv, gn[i as int]),
                    val == ValueV::Node(node_value_of(gn[i as int].0, gn[i as int].1)),
                    out@.len() <= MAX_ROWS,
                    rv == rows_view(rows@),
                    rv.len() == rows@.len(),
                    val == ValueV::Node(nv@),
                    rows_view(out@) == base + bind_all(rv.subrange(0, j as int), var@, val),
                    base == scan_rows(gn.subrange(0, i as int), rv, var@, label, pv),
                    base.len() <= MAX_ROWS,
                decreases rows.len() - j,
            {
                if out.len() >= MAX_ROWS {
                    proof {
                        assert(scan_rows(sub, rv, var@, label, pv) == base + bind_all(rv, var@, val));
                        scan_len_monotone(gn, rv, var@, label, pv, (i + 1) as int);
                        assert(rows_view(out@).len() == out@.len());
                        assert(bind_all(rv.subrange(0, j as int), var@, val).len() == j);
                        assert(scan_rows(sub, rv, var@, label, pv).len() > MAX_ROWS);
                        assert(scan_rows(gn, rv, var@, label, pv).len() > MAX_ROWS);
                    }
                    let err = cap_error(false);
                    assert(err matches CypherError::Execute { msg } && msg@ == cap_message());
                    return Err(err);
                }
                let mut r = rows[j].duplicate();
                r.insert(var.clone(), Value::Node(nv.duplicate()));
                let ghost pre = rows_view(out@);
                out.push(r);
                j = j + 1;
                assert(rows_view(out@) =~= pre.push(row_insert(rv[j - 1], var@, val)));
                assert(bind_all(rv.subrange(0, j as int), var@, val) =~= bind_all(rv.subrange(0, (j - 1) as int), var@, val).push(
                    row_insert(rv[j - 1], var@, val),
                ));
            }
            assert(rv.subrange(0, rv.len() as int) =~= rv);
            assert(scan_rows(sub, rv, var@, label, pv) == base + bind_all(rv, var@, val));
        } else {
            assert(!scan_hit(label, pv, gn[i as int]));
            assert(scan_rows(sub, rv, var@, label, pv) =~= scan_rows(gn.subrange(0, i as int), rv, var@, label, pv));
        }
        i = i + 1;
    }
    assert(gn.subrange(0, gn.len() as int) =~= gn);
    Ok(out)
}

fn edge_hit_exec(g: &GraphSnapshot, k: usize, id: u64, edge: &EdgePat) -> (r: Option<usize>)
    requires
        k < g.edges@.len(),
    ensures
        ({
            let e = g@.edges[k as int];
            let far = if edge@.direction == Direction::RightToLeft { e.0 } else { e.1 };
            match r {
                Some(ni) => edge_hit(g@, e, id, edge@) && ni < g.nodes@.len() && g.nodes@[ni as int].0 == far
                    && node_lookup(g@.nodes, far, 0) == Some(g.nodes@[ni as int].1@),
                None => !edge_hit(g@, e, id, edge@),
            }
        }),
{
    let (ef, et, ek) = g.edges[k];
    let reverse = !direction_ok(edge);
    let near = if reverse { et } else { ef };
    let far = if reverse { ef } else { et };
    if near != id {
        return None;
    }
    if !edge_types_match(edge, edge_kind_name(ek)) {
        return None;
    }
    lookup_node(g, far)
}

fn make_edge_row(g: &GraphSnapshot, k: usize, ni: usize, r: &Row, edge: &EdgePat, to: &String) -> (out: Row)
    requires
        k < g.edges@.len(),
        ni < g.nodes@.len(),
        node_lookup(g@.nodes, if edge@.direction == Direction::RightToLeft { g@.edges[k as int].0 } else { g@.edges[k as int].1 }, 0)
            == Some(g.nodes@[ni as int].1@),
        g.nodes@[ni as int].0 == if edge@.direction == Direction::RightToLeft { g@.edges[k as int].0 } else { g@.edges[k as int].1 },
    ensures
        out@ == edge_row(g@, g@.edges[k as int], r@, edge@, to@),
{
    let (ef, et, ek) = g.edges[k];
    let mut row = r.duplicate();
    row.insert(to.clone(), Value::Node(node_value(g.nodes[ni].0, &g.nodes[ni].1)));
    match &edge.var {
        Some(v) => {
            row.insert(v.clone(), Value::Edge(EdgeValue { from: ef, to: et, kind: String::from_str(edge_kind_name(ek)) }));
        },
        None => {},
    }
    row
}

fn expand(g: &GraphSnapshot, rows: &Vec<Row>, from: &String, edge: &EdgePat, to: &String) -> (r: Result<Vec<Row>, CypherError>)
    ensures
        ({
            let s = expand_rows(g@, rows_view(rows@), from@, edge@, to@);
            match r {
                Ok(out) => rows_view(out@) == s && s.len() <= MAX_ROWS,
                Err(e) => s.len() > MAX_ROWS && (e matches CypherError::Execute { msg } && msg@ == if edge@.direction
                    == Direction::RightToLeft {
                    reverse_cap_message()
                } else {
                    cap_message()
                }),
            }
        }),
{
    let ghost gv = g@;
    let ghost rv = rows_view(rows@);
    let ghost ev = edge@;
    let reverse = !direction_ok(edge);
    let mut out: Vec<Row> = Vec::new();
    let mut i: usize = 0;
    assert(rv.subrange(0, 0) =~= Seq::<RowV>::empty());
    assert(rows_view(out@) =~= Seq::<RowV>::empty());
    while i < rows.len()
        invariant
            i <= rows.len(),
            gv == g@,
            ev == edge@,
            reverse == (ev.direction == Direction::RightToLeft),
            rv == rows_view(rows@),
            rv.len() == rows@.len(),
            rows_view(out@) == expand_rows(gv, rv.subrange(0, i as int), from@, ev, to@),
            out@.len() <= MAX_ROWS,
        decreases rows.len() - i,
    {
        let ghost sub = rv.subrange(0, (i + 1) as int);
        assert(sub.drop_last() =~= rv.subrange(0, i as int));
        assert(sub.last() == rv[i as int]);
        let id: u64 = match rows[i].get(from.as_str()) {
            Some(Value::Node(n)) => n.id,
            _ => {
                assert(expand_row(gv, rv[i as int], from@, ev, to@) =~= Seq::<RowV>::empty());
                assert(expand_rows(gv, sub, from@, ev, to@) =~= expand_rows(gv, rv.subrange(0, i as int), from@, ev, to@));
                i = i + 1;
                continue;
            },
        };
        let ghost base = rows_view(out@);
        let ghost edges = gv.edges;
        let mut k: usize = 0;
        assert(edges.subrange(0, 0) =~= Seq::<(u64, u64, u8)>::empty());
        assert(rows_view(out@) =~= base + edge_rows(gv, edges.subrange(0, 0), rv[i as int], id, ev, to@));
        while k < g.edges.len()
            invariant
                k <= g.edges.len(),
                i < rows.len(),
                sub == rv.subrange(0, (i + 1) as int),
                sub.drop_last() == rv.subrange(0, i as int),
                sub.last() == rv[i as int],
                gv == g@,
                ev == edge@,
                edges == gv.edges,
                edges.len() == g.edges@.len(),
                rv == rows_view(rows@),
                rv.len() == rows@.len(),
                reverse == (ev.direction == Direction::RightToLeft),
                row_get(rv[i as int], from@) matches Some(ValueV::Node(n)) && n.id == id,
                base == expand_rows(gv, rv.subrange(0, i as int), from@, ev, to@),
                base.len() <= MAX_ROWS,
                rows_view(out@) == base + edge_rows(gv, edges.subrange(0, k as int), rv[i as int], id, ev, to@),
                out@.len() <= MAX_ROWS,
            decreases g.edges.len() - k,
        {
            let ghost esub = edges.subrange(0, (k + 1) as int);
            assert(esub.drop_last() =~= edges.subrange(0, k as int));
            assert(esub.last() == edges[k as int]);
            match edge_hit_exec(g, k, id, edge) {
                Some(ni) => {
                    if out.len() >= MAX_ROWS {
                        proof {
                            edge_rows_len_monotone(gv, edges, rv[i as int], id, ev, to@, (k + 1) as int);
                            assert(expand_rows(gv, sub, from@, ev, to@) == base + edge_rows(gv, edges, rv[i as int], id, ev, to@));
                            expand_len_monotone(gv, rv, from@, ev, to@, (i + 1) as int);
                            assert(rows_view(out@).len() == out@.len());
                            assert(edge_rows(gv, esub, rv[i as int], id, ev, to@).len() == edge_rows(gv, edges.subrange(0, k as int), rv[i as int], id, ev, to@).len() + 1);
                            assert(expand_rows(gv, sub, from@, ev, to@).len() > MAX_ROWS);
                            assert(expand_rows(gv, rv, from@, ev, to@).len() > MAX_ROWS);
                        }
                        let err = cap_error(reverse);
                        return Err(err);
                    }
                    let row = make_edge_row(g, k, ni, &rows[i], edge, to);
                    let ghost pre = rows_view(out@);
                    out.push(row);
                    assert(rows_view(out@) =~= pre.push(edge_row(gv, edges[k as int], rv[i as int], ev, to@)));
                },
                None => {},
            }
            k = k + 1;
        }
        assert(edges.subrange(0, edges.len() as int) =~= edges);
        assert(expand_rows(gv, sub, from@, ev, to@) == base + edge_rows(gv, edges, rv[i as int], id, ev, to@));
        i = i + 1;
    }
    assert(rv.subrange(0, rv.len() as int) =~= rv);
    Ok(out)
}

fn filter(rows: &Vec<Row>, e: &crate::cypher::ast::Expr) -> (out: Vec<Row>)
    ensures
        rows_view(out@) == filter_rows(rows_view(rows@), e@),
{
    let ghost rv = rows_view(rows@);
    let mut out: Vec<Row> = Vec::new();
    let mut i: usize = 0;
    assert(rv.subrange(0, 0) =~= Seq::<RowV>::empty());
    assert(rows_view(out@) =~= Seq::<RowV>::empty());
    while i < rows.len()
        invariant
            i <= rows.len(),
            rv == rows_view(rows@),
            rv.len() == rows@.len(),
            rows_view(out@) == filter_rows(rv.subrange(0, i as int), e@),
        decreases rows.len() - i,
    {
        let ghost sub = rv.subrange(0, (i + 1) as int);
        assert(sub.drop_last() =~= rv.subrange(0, i as int));
        assert(sub.last() == rv[i as int]);
        let v = eval_expr(e, &rows[i]);
        if is_truthy(&v) {
            let ghost pre = rows_view(out@);
            out.push(rows[i].duplicate());
            assert(rows_view(out@) =~= pre.push(rv[i as int]));
        }
        i = i + 1;
    }
    assert(rv.subrange(0, rv.len() as int) =~= rv);
    out
}

fn column_of(item: &ReturnItem) -> (c: String)
    ensures
        c@ == column_name(item@),
{
    match &item.alias {
        Some(a) => a.clone(),
        None => match &item.expr {
            ReturnExpr::Var(v) => v.clone(),
            ReturnExpr::Prop(v, p) => {
                let mut c = v.clone();
                c.append(".");
                c.append(p.as_str());
                c
            },
        },
    }
}

fn project_one(r: &Row, items: &Vec<ReturnItem>) -> (out: Row)
    ensures
        out@ == project_row(r@, crate::cypher::ast::return_items_view(items@)),
{
    let ghost iv = crate::cypher::ast::return_items_view(items@);
    let mut out = Row::new();
    let mut i: usize = 0;
    assert(iv.subrange(0, 0) =~= Seq::<ReturnItemV>::empty());
    while i < items.len()
        invariant
            i <= items.len(),
            iv == crate::cypher::ast::return_items_view(items@),
            iv.len() == items@.len(),
            out@ == project_row(r@, iv.subrange(0, i as int)),
        decreases items.len() - i,
    {
        let ghost sub = iv.subrange(0, (i + 1) as int);
        assert(sub.drop_last() =~= iv.subrange(0, i as int));
        assert(sub.last() == iv[i as int]);
        let col = column_of(&items[i]);
        let v = eval_return_expr(&items[i].expr, r);
        out.insert(col, v);
        i = i + 1;
    }
    assert(iv.subrange(0, iv.len() as int) =~= iv);
    out
}

fn project(rows: &Vec<Row>, items: &Vec<ReturnItem>) -> (out: Vec<Row>)
    ensures
        rows_view(out@) == rows_view(rows@).map_values(|r: RowV| project_row(r, crate::cypher::ast::return_items_view(items@))),
{
    let mut out: Vec<Row> = Vec::new();
    let mut i: usize = 0;
    while i < rows.len()
        invariant
            i <= rows.len(),
            out@.len() == i,
            forall|k: int| 0 <= k < i ==> #[trigger] out@[k]@ == project_row(rows@[k]@, crate::cypher::ast::return_items_view(items@)),
        decreases rows.len() - i,
    {
        out.push(project_one(&rows[i], items));
        i = i + 1;
    }
    assert(rows_view(out@) =~= rows_view(rows@).map_values(|r: RowV| project_row(r, crate::cypher::ast::return_items_view(items@))));
    out
}


/// `x` inserted into `s` after every element it does not come before:
/// one step of a stable insertion sort.
pub open spec fn insert_ordered<T>(s: Seq<T>, x: T, after: spec_fn(T, T) -> bool) -> Seq<T>
    decreases s.len(),
{
    if s.len() == 0 {
        seq![x]
    } else if after(s.last(), x) {
        insert_ordered(s.drop_last(), x, after).push(s.last())
    } else {
        s.push(x)
    }
}

/// The stable sort of `s`, where `after(a, b)` says that `a` belongs after `b`.
pub open spec fn sort_ordered<T>(s: Seq<T>, after: spec_fn(T, T) -> bool) -> Seq<T>
    decreases s.len(),
{
    if s.len() == 0 {
        Seq::empty()
    } else {
        insert_ordered(sort_ordered(s.drop_last(), after), s.last(), after)
    }
}

/// When every element from index `j` on belongs after `x` and the one
/// before `j` does not, inserting puts `x` at index `j`.
pub proof fn insert_ordered_at<T>(s: Seq<T>, x: T, after: spec_fn(T, T) -> bool, j: int)
    requires
        0 <= j <= s.len(),
        forall|k: int| j <= k < s.len() ==> after(#[trigger] s[k], x),
        j == 0 || !after(s[j - 1], x),
    ensures
        insert_ordered(s, x, after) == s.insert(j, x),
    decreases s.len(),
{
    if s.len() == 0 {
        assert(s.insert(j, x) =~= seq![x]);
    } else if j == s.len() {
        assert(s.insert(j, x) =~= s.push(x));
    } else {
        assert(after(s.last(), x));
        insert_ordered_at(s.drop_last(), x, after, j);
        assert(s.drop_last().insert(j, x).push(s.last()) =~= s.insert(j, x));
    }
}

/// The text a value contributes to a row's identity under DISTINCT.
pub open spec fn value_key(v: ValueV) -> Seq<char> {
    match v {
        ValueV::Null => "null"@,
        ValueV::Bool(b) => if b {
            "true"@
        } else {
            "false"@
        },
        ValueV::Int(i) => spec_i64_text(i),
        ValueV::Float(t) => t,
        ValueV::Str(t) => t,
        ValueV::Node(n) => spec_decimal(n.id as nat),
        ValueV::Edge(e) => spec_decimal(e.from as nat) + "->"@ + spec_decimal(e.to as nat),
    }
}

pub open spec fn name_after() -> spec_fn((Seq<char>, Seq<char>), (Seq<char>, Seq<char>)) -> bool {
    |a: (Seq<char>, Seq<char>), b: (Seq<char>, Seq<char>)| chars_compared(a.0, b.0) == Compared::Greater
}

pub open spec fn keyed_cols(r: RowV) -> Seq<(Seq<char>, Seq<char>)> {
    r.map_values(|c: (Seq<char>, ValueV)| (c.0, value_key(c.1)))
}

/// `name:key` pieces joined by `|`.
pub open spec fn join_pieces(ps: Seq<(Seq<char>, Seq<char>)>) -> Seq<char>
    decreases ps.len(),
{
    if ps.len() == 0 {
        Seq::empty()
    } else if ps.len() == 1 {
        ps[0].0 + ":"@ + ps[0].1
    } else {
        join_pieces(ps.drop_last()) + "|"@ + ps.last().0 + ":"@ + ps.last().1
    }
}

/// A row's identity under DISTINCT: its columns sorted by name, each as
/// `name:key`, joined by `|`.
pub open spec fn row_key(r: RowV) -> Seq<char> {
    join_pieces(sort_ordered(keyed_cols(r), name_after()))
}

/// DISTINCT: the first row of each identity, in order.
pub open spec fn dedup_rows(rows: Seq<RowV>) -> Seq<RowV>
    decreases rows.len(),
{
    if rows.len() == 0 {
        Seq::empty()
    } else {
        let prev = rows.drop_last();
        dedup_rows(prev) + if exists|j: int| 0 <= j < prev.len() && row_key(#[trigger] prev[j]) == row_key(rows.last()) {
            Seq::empty()
        } else {
            seq![rows.last()]
        }
    }
}

/// One ORDER BY item on two rows; descending items reverse the order.
pub open spec fn item_order(item: OrderItemV, a: RowV, b: RowV) -> Compared {
    let o = values_order(eval_return(item.expr, a), eval_return(item.expr, b));
    if item.descending {
        o.flipped()
    } else {
        o
    }
}

/// ORDER BY on two rows: the first item that tells them apart decides.
pub open spec fn rows_order(items: Seq<OrderItemV>, a: RowV, b: RowV) -> Compared
    decreases items.len(),
{
    if items.len() == 0 {
        Compared::Equal
    } else {
        let o = item_order(items[0], a, b);
        if o != Compared::Equal {
            o
        } else {
            rows_order(items.drop_first(), a, b)
        }
    }
}

pub open spec fn row_after(items: Seq<OrderItemV>) -> spec_fn(RowV, RowV) -> bool {
    |a: RowV, b: RowV| rows_order(items, a, b) == Compared::Greater
}

/// How many rows SKIP / LIMIT `n` counts; negative counts are zero.
pub open spec fn row_count(n: i64) -> int {
    let k = (if n < 0 { 0i64 } else { n }) as usize;
    k as int
}

/// One plan step applied to the rows; Scan and Expand fail past the row cap.
pub open spec fn step(g: GraphV, node: PlanNodeV, rows: Seq<RowV>) -> Result<Seq<RowV>, Seq<char>> {
    match node {
        PlanNodeV::Scan { var, label, props } => {
            let s = scan_rows(g.nodes, rows, var, label, props);
            if s.len() > MAX_ROWS {
                Err(cap_message())
            } else {
                Ok(s)
            }
        },
        PlanNodeV::Expand { from, edge, to } => {
            let s = expand_rows(g, rows, from, edge, to);
            if s.len() > MAX_ROWS {
                Err(
                    if edge.direction == Direction::RightToLeft {
                        reverse_cap_message()
                    } else {
                        cap_message()
                    },
                )
            } else {
                Ok(s)
            }
        },
        PlanNodeV::Filter(e) => Ok(filter_rows(rows, e)),
        PlanNodeV::Project(items) => Ok(rows.map_values(|r: RowV| project_row(r, items))),
        PlanNodeV::Distinct => Ok(dedup_rows(rows)),
        PlanNodeV::Sort(items) => Ok(sort_ordered(rows, row_after(items))),
        PlanNodeV::Skip(n) => {
            let k = if row_count(n) < rows.len() { row_count(n) } else { rows.len() as int };
            Ok(rows.subrange(k, rows.len() as int))
        },
        PlanNodeV::Take(n) => {
            let k = if row_count(n) < rows.len() { row_count(n) } else { rows.len() as int };
            Ok(rows.subrange(0, k))
        },
    }
}

/// The result of a plan: its steps applied in order to one empty row; the
/// first failing step's message otherwise.
pub open spec fn run_plan(g: GraphV, plan: Seq<PlanNodeV>) -> Result<Seq<RowV>, Seq<char>>
    decreases plan.len(),
{
    if plan.len() == 0 {
        Ok(seq![Seq::<(Seq<char>, ValueV)>::empty()])
    } else {
        match run_plan(g, plan.drop_last()) {
            Err(m) => Err(m),
            Ok(rows) => step(g, plan.last(), rows),
        }
    }
}

fn value_key_string(v: &Value) -> (s: String)
    ensures
        s@ == value_key(v@),
{
    match v {
        Value::Null => String::from_str("null"),
        Value::Bool(b) => if *b {
            String::from_str("true")
        } else {
            String::from_str("false")
        },
        Value::Int(i) => {
            let mut s = String::new();
            push_i64(&mut s, *i);
            assert(s@ =~= spec_i64_text(*i));
            s
        },
        Value::Float(t) => t.clone(),
        Value::Str(t) => t.clone(),
        Value::Node(n) => {
            let mut s = String::new();
            push_decimal(&mut s, n.id);
            assert(s@ =~= spec_decimal(n.id as nat));
            s
        },
        Value::Edge(e) => {
            let mut s = String::new();
            push_decimal(&mut s, e.from);
            s.append("->");
            push_decimal(&mut s, e.to);
            assert(s@ =~= spec_decimal(e.from as nat) + "->"@ + spec_decimal(e.to as nat));
            s
        },
    }
}

pub open spec fn pairs_view(v: Seq<(String, String)>) -> Seq<(Seq<char>, Seq<char>)> {
    v.map_values(|p: (String, String)| (p.0@, p.1@))
}

/// The text that identifies a row under DISTINCT.
pub fn row_key_string(r: &Row) -> (s: String)
    ensures
        s@ == row_key(r@),
{
    let ghost kc = keyed_cols(r@);
    let mut pairs: Vec<(String, String)> = Vec::new();
    let mut i: usize = 0;
    assert(kc.subrange(0, 0) =~= Seq::<(Seq<char>, Seq<char>)>::empty());
    assert(pairs_view(pairs@) =~= Seq::<(Seq<char>, Seq<char>)>::empty());
    while i < r.cols.len()
        invariant
            i <= r.cols.len(),
            kc == keyed_cols(r@),
            kc.len() == r.cols@.len(),
            pairs_view(pairs@) == sort_ordered(kc.subrange(0, i as int), name_after()),
        decreases r.cols.len() - i,
    {
        let ghost sub = kc.subrange(0, (i + 1) as int);
        assert(sub.drop_last() =~= kc.subrange(0, i as int));
        let name = r.cols[i].0.clone();
        let vk = value_key_string(&r.cols[i].1);
        let ghost x = (name@, vk@);
        assert(sub.last() == x);
        let ghost pv = pairs_view(pairs@);
        let mut j: usize = pairs.len();
        while j > 0 && compare_strs(pairs[j - 1].0.as_str(), name.as_str()) == Compared::Greater
            invariant
                j <= pairs.len(),
                pv == pairs_view(pairs@),
                x == (name@, vk@),
                forall|k: int| j <= k < pv.len() ==> (name_after())(#[trigger] pv[k], x),
            decreases j,
        {
            j = j - 1;
        }
        proof {
            insert_ordered_at(pv, x, name_after(), j as int);
        }
        pairs.insert(j, (name, vk));
        assert(pairs_view(pairs@) =~= pv.insert(j as int, x));
        i = i + 1;
    }
    assert(kc.subrange(0, kc.len() as int) =~= kc);
    let ghost ps = pairs_view(pairs@);
    let mut s = String::new();
    let mut k: usize = 0;
    assert(ps.subrange(0, 0) =~= Seq::<(Seq<char>, Seq<char>)>::empty());
    while k < pairs.len()
        invariant
            k <= pairs.len(),
            ps == pairs_view(pairs@),
            s@ == join_pieces(ps.subrange(0, k as int)),
        decreases pairs.len() - k,
    {
        let ghost sub = ps.subrange(0, (k + 1) as int);
        assert(sub.drop_last() =~= ps.subrange(0, k as int));
        if k > 0 {
            s.append("|");
        }
        s.append(pairs[k].0.as_str());
        s.append(":");
        s.append(pairs[k].1.as_str());
        k = k + 1;
        assert(s@ =~= join_pieces(sub));
    }
    assert(ps.subrange(0, ps.len() as int) =~= ps);
    s
}

fn dedup(rows: &Vec<Row>) -> (out: Vec<Row>)
    ensures
        rows_view(out@) == dedup_rows(rows_view(rows@)),
{
    let ghost rv = rows_view(rows@);
    let mut out: Vec<Row> = Vec::new();
    let mut seen: Vec<String> = Vec::new();
    let mut i: usize = 0;
    assert(rv.subrange(0, 0) =~= Seq::<RowV>::empty());
    assert(rows_view(out@) =~= Seq::<RowV>::empty());
    while i < rows.len()
        invariant
            i <= rows.len(),
            rv == rows_view(rows@),
            rv.len() == rows@.len(),
            seen@.len() == i,
            forall|k: int| 0 <= k < i ==> #[trigger] seen@[k]@ == row_key(rv[k]),
            rows_view(out@) == dedup_rows(rv.subrange(0, i as int)),
        decreases rows.len() - i,
    {
        let ghost sub = rv.subrange(0, (i + 1) as int);
        assert(sub.drop_last() =~= rv.subrange(0, i as int));
        let key = row_key_string(&rows[i]);
        let mut found = false;
        let mut m: usize = 0;
        while m < seen.len()
            invariant
                m <= seen.len(),
                seen@.len() == i,
                !found ==> forall|k: int| 0 <= k < m ==> seen@[k]@ != key@,
                found ==> exists|k: int| 0 <= k < i && #[trigger] seen@[k]@ == key@,
            decreases seen.len() - m,
        {
            if crate::text::str_eq(seen[m].as_str(), key.as_str()) {
                found = true;
            }
            m = m + 1;
        }
        proof {
            let prev = sub.drop_last();
            if found {
                let k = choose|k: int| 0 <= k < i && #[trigger] seen@[k]@ == key@;
                assert(prev[k] == rv[k]);
                assert(row_key(prev[k]) == row_key(sub.last()));
            } else {
                assert forall|j: int| 0 <= j < prev.len() implies row_key(#[trigger] prev[j]) != row_key(sub.last()) by {
                    assert(seen@[j]@ == row_key(rv[j]));
                }
            }
        }
        if !found {
            let ghost pre = rows_view(out@);
            out.push(rows[i].duplicate());
            assert(rows_view(out@) =~= pre + seq![rv[i as int]]);
        } else {
            assert(rows_view(out@) =~= rows_view(out@) + Seq::<RowV>::empty());
        }
        seen.push(key);
        i = i + 1;
    }
    assert(rv.subrange(0, rv.len() as int) =~= rv);
    out
}

fn compare_rows(items: &Vec<OrderItem>, a: &Row, b: &Row) -> (r: Compared)
    ensures
        r == rows_order(crate::cypher::ast::order_items_view(items@), a@, b@),
{
    let ghost iv = crate::cypher::ast::order_items_view(items@);
    let mut i: usize = 0;
    assert(iv.subrange(0, iv.len() as int) =~= iv);
    while i < items.len()
        invariant
            i <= items.len(),
            iv == crate::cypher::ast::order_items_view(items@),
            iv.len() == items@.len(),
            rows_order(iv, a@, b@) == rows_order(iv.subrange(i as int, iv.len() as int), a@, b@),
        decreases items.len() - i,
    {
        let ghost rest = iv.subrange(i as int, iv.len() as int);
        assert(rest[0] == iv[i as int]);
        assert(rest.drop_first() =~= iv.subrange(i + 1, iv.len() as int));
        let va = eval_return_expr(&items[i].expr, a);
        let vb = eval_return_expr(&items[i].expr, b);
        let o0 = compare_values(&va, &vb);
        let o = if items[i].descending { o0.reverse() } else { o0 };
        if o != Compared::Equal {
            return o;
        }
        i = i + 1;
    }
    Compared::Equal
}

fn sort_rows(rows: &Vec<Row>, items: &Vec<OrderItem>) -> (out: Vec<Row>)
    ensures
        rows_view(out@) == sort_ordered(rows_view(rows@), row_after(crate::cypher::ast::order_items_view(items@))),
{
    let ghost rv = rows_view(rows@);
    let ghost after = row_after(crate::cypher::ast::order_items_view(items@));
    let mut out: Vec<Row> = Vec::new();
    let mut i: usize = 0;
    assert(rv.subrange(0, 0) =~= Seq::<RowV>::empty());
    assert(rows_view(out@) =~= Seq::<RowV>::empty());
    while i < rows.len()
        invariant
            i <= rows.len(),
            rv == rows_view(rows@),
            rv.len() == rows@.len(),
            after == row_after(crate::cypher::ast::order_items_view(items@)),
            rows_view(out@) == sort_ordered(rv.subrange(0, i as int), after),
        decreases rows.len() - i,
    {
        let ghost sub = rv.subrange(0, (i + 1) as int);
        assert(sub.drop_last() =~= rv.subrange(0, i as int));
        let x = rows[i].duplicate();
        let ghost pv = rows_view(out@);
        let mut j: usize = out.len();
        while j > 0 && compare_rows(items, &out[j - 1], &x) == Compared::Greater
            invariant
                j <= out.len(),
                pv == rows_view(out@),
                after == row_after(crate::cypher::ast::order_items_view(items@)),
                forall|k: int| j <= k < pv.len() ==> after(#[trigger] pv[k], x@),
            decreases j,
        {
            j = j - 1;
        }
        proof {
            insert_ordered_at(pv, x@, after, j as int);
        }
        let ghost xv = x@;
        out.insert(j, x);
        assert(rows_view(out@) =~= pv.insert(j as int, xv));
        i = i + 1;
    }
    assert(rv.subrange(0, rv.len() as int) =~= rv);
    out
}

fn skip_rows(rows: Vec<Row>, n: i64) -> (out: Vec<Row>)
    ensures
        ({
            let k = if row_count(n) < rows@.len() { row_count(n) } else { rows@.len() as int };
            rows_view(out@) == rows_view(rows@).subrange(k, rows@.len() as int)
        }),
{
    let k: usize = (if n < 0 { 0i64 } else { n }) as usize;
    let mut out: Vec<Row> = Vec::new();
    let mut rows = rows;
    let ghost rv = rows_view(rows@);
    let ghost len = rows@.len();
    if k >= rows.len() {
        assert(rows_view(out@) =~= rv.subrange(len as int, len as int));
        return out;
    }
    let mut tail = rows.split_off(k);
    assert(rows_view(tail@) =~= rv.subrange(k as int, len as int));
    tail
}

fn take_rows(rows: Vec<Row>, n: i64) -> (out: Vec<Row>)
    ensures
        ({
            let k = if row_count(n) < rows@.len() { row_count(n) } else { rows@.len() as int };
            rows_view(out@) == rows_view(rows@).subrange(0, k)
        }),
{
    let k: usize = (if n < 0 { 0i64 } else { n }) as usize;
    let mut rows = rows;
    let ghost rv = rows_view(rows@);
    rows.truncate(k);
    assert(rows_view(rows@) =~= rv.subrange(0, rows@.len() as int));
    rows
}

proof fn run_plan_error_extends(g: GraphV, plan: Seq<PlanNodeV>, j: int)
    requires
        0 <= j <= plan.len(),
        run_plan(g, plan.subrange(0, j)) is Err,
    ensures
        run_plan(g, plan) == run_plan(g, plan.subrange(0, j)),
    decreases plan.len(),
{
    if j == plan.len() {
        assert(plan.subrange(0, j) =~= plan);
    } else {
        assert(plan.drop_last().subrange(0, j) =~= plan.subrange(0, j));
        run_plan_error_extends(g, plan.drop_last(), j);
    }
}

/// Runs a plan over a graph snapshot. Read-only.
pub fn run(g: &GraphSnapshot, plan: &Vec<PlanNode>) -> (r: Result<Vec<Row>, CypherError>)
    ensures
        match r {
            Ok(rows) => run_plan(g@, plan_view(plan@)) == Ok::<_, Seq<char>>(rows_view(rows@)),
            Err(e) => run_plan(g@, plan_view(plan@)) matches Err(m) && (e matches CypherError::Execute { msg } && msg@ == m),
        },
{
    let ghost pv = plan_view(plan@);
    let mut rows: Vec<Row> = Vec::new();
    rows.push(Row::new());
    assert(rows_view(rows@) =~= seq![Seq::<(Seq<char>, ValueV)>::empty()]);
    assert(pv.subrange(0, 0) =~= Seq::<PlanNodeV>::empty());
    let mut i: usize = 0;
    while i < plan.len()
        invariant
            i <= plan.len(),
            pv == plan_view(plan@),
            pv.len() == plan@.len(),
            run_plan(g@, pv.subrange(0, i as int)) == Ok::<_, Seq<char>>(rows_view(rows@)),
        decreases plan.len() - i,
    {
        let ghost sub = pv.subrange(0, (i + 1) as int);
        assert(sub.drop_last() =~= pv.subrange(0, i as int));
        assert(sub.last() == plan@[i as int]@);
        let ghost before = rows_view(rows@);
        let next: Vec<Row> = match &plan[i] {
            PlanNode::Scan { var, label, props } => match scan(g, &rows, var, *label, props) {
                Ok(out) => out,
                Err(e) => {
                    proof {
                        assert(run_plan(g@, sub) is Err);
                        run_plan_error_extends(g@, pv, (i + 1) as int);
                    }
                    return Err(e);
                },
            },
            PlanNode::Expand { from, edge, to } => match expand(g, &rows, from, edge, to) {
                Ok(out) => out,
                Err(e) => {
                    proof {
                        assert(run_plan(g@, sub) is Err);
                        run_plan_error_extends(g@, pv, (i + 1) as int);
                    }
                    return Err(e);
                },
            },
            PlanNode::Filter(e) => filter(&rows, e),
            PlanNode::Project(items) => project(&rows, items),
            PlanNode::Distinct => dedup(&rows),
            PlanNode::Sort(o) => sort_rows(&rows, &o.items),
            PlanNode::Skip(n) => skip_rows(rows, *n),
            PlanNode::Take(n) => take_rows(rows, *n),
        };
        assert(step(g@, pv[i as int], before) == Ok::<_, Seq<char>>(rows_view(next@)));
        rows = next;
        i = i + 1;
    }
    assert(pv.subrange(0, pv.len() as int) =~= pv);
    Ok(rows)
}

} // verus!
