//! The logic behind Grafy's MCP tools: parameters, call-graph tracing,
//! graph search, snippet lookup, schema and architecture summaries, code
//! search and the error text every tool reports.

pub mod search;
pub mod code;
pub mod trace_laws;

use vstd::prelude::*;
use crate::cypher::executor::{GraphSnapshot, GraphV, node_lookup};
use crate::cypher::plan::{kind_name, spec_kind_name};
use crate::store::{NodeKind, NodeRecord, NodeRecordV};
use crate::text::{after_last, has_infix, str_after_last, str_contains, str_eq};

verus! {

/// The MCP server state: the repository root it serves.
#[derive(Debug)]
pub struct GrafyServer {
    pub root: String,
}

impl GrafyServer {
    pub fn new(root: String) -> (s: GrafyServer)
        ensures
            s.root@ == root@,
    {
        GrafyServer { root }
    }
}

/// Parameters of `index_repository`.
#[derive(Debug)]
pub struct IndexRepositoryParams {
    pub repo_path: String,
    pub mode: Option<String>,
    pub target_projects: Option<Vec<String>>,
    pub persistence: Option<bool>,
}

/// Parameters of `search_graph`.
#[derive(Debug)]
pub struct SearchGraphParams {
    pub project: String,
    pub query: Option<String>,
    pub label: Option<String>,
    pub name_pattern: Option<String>,
    pub qn_pattern: Option<String>,
    pub file_pattern: Option<String>,
    pub relationship: Option<String>,
    pub min_degree: Option<i64>,
    pub max_degree: Option<i64>,
    pub exclude_entry_points: Option<bool>,
    pub include_connected: Option<bool>,
    pub semantic_query: Option<Vec<String>>,
    pub limit: Option<i64>,
    pub offset: Option<i64>,
}

/// Parameters of `query_graph`.
#[derive(Debug)]
pub struct QueryGraphParams {
    pub query: String,
    pub project: String,
    pub max_rows: Option<i64>,
}

/// Parameters of `trace_path` and `trace_call_path`.
#[derive(Debug)]
pub struct TracePathParams {
    pub function_name: String,
    pub project: String,
    pub direction: Option<String>,
    pub depth: Option<i64>,
    pub mode: Option<String>,
    pub parameter_name: Option<String>,
    pub edge_types: Option<Vec<String>>,
    pub risk_labels: Option<bool>,
    pub include_tests: Option<bool>,
}

/// Parameters of `get_code_snippet`.
#[derive(Debug)]
pub struct GetCodeSnippetParams {
    pub qualified_name: String,
    pub project: String,
    pub include_neighbors: Option<bool>,
}

/// A parameter set naming only the project.
#[derive(Debug)]
pub struct ProjectParam {
    pub project: String,
}

/// Parameters of `get_architecture`.
#[derive(Debug)]
pub struct GetArchitectureParams {
    pub project: String,
    pub aspects: Option<Vec<String>>,
}

/// Parameters of `search_code`.
#[derive(Debug)]
pub struct SearchCodeParams {
    pub pattern: String,
    pub project: String,
    pub file_pattern: Option<String>,
    pub path_filter: Option<String>,
    pub mode: Option<String>,
    pub context: Option<i64>,
    pub regex: Option<bool>,
    pub limit: Option<i64>,
}

/// Parameters of `list_projects` (none).
#[derive(Debug)]
pub struct ListProjectsParams {}

/// Parameters of `detect_changes`.
#[derive(Debug)]
pub struct DetectChangesParams {
    pub project: String,
    pub scope: Option<String>,
    pub depth: Option<i64>,
    pub base_branch: Option<String>,
    pub since: Option<String>,
}

/// Parameters of `manage_adr`.
#[derive(Debug)]
pub struct ManageAdrParams {
    pub project: String,
    pub mode: Option<String>,
    pub content: Option<String>,
    pub sections: Option<Vec<String>>,
}

/// The label a node kind is shown with.
pub fn node_kind_label(kind: NodeKind) -> (r: &'static str)
    ensures
        r@ == spec_kind_name(kind),
{
    kind_name(kind)
}

/// `s` with every `"` replaced by `'`.
pub open spec fn quotes_to_apostrophes(s: Seq<char>) -> Seq<char> {
    s.map_values(|c: char| if c == '"' { '\'' } else { c })
}

/// The payload of a tool error: `{"error": "grafy <tool>: <file> — <action>"}`
/// with double quotes in the message turned into single quotes.
pub open spec fn tool_error_payload(tool: Seq<char>, file: Seq<char>, action: Seq<char>) -> Seq<char> {
    "{\"error\": \""@ + quotes_to_apostrophes("grafy "@ + tool + ": "@ + file + " — "@ + action) + "\"}"@
}

/// The text a tool returns when it fails: the tool, the file or context,
/// and a one-line action.
pub fn tool_error_text(tool: &str, file: &str, action: &str) -> (r: String)
    ensures
        r@ == tool_error_payload(tool@, file@, action@),
{
    let mut msg = String::from_str("grafy ");
    msg.append(tool);
    msg.append(": ");
    msg.append(file);
    msg.append(" — ");
    msg.append(action);
    let chars = crate::text::chars_of(msg.as_str());
    let mut out = String::from_str("{\"error\": \"");
    let ghost prefix = out@;
    let mut i: usize = 0;
    while i < chars.len()
        invariant
            i <= chars.len(),
            out@ == prefix + quotes_to_apostrophes(chars@.subrange(0, i as int)),
        decreases chars.len() - i,
    {
        let c = chars[i];
        out.push(if c == '"' { '\'' } else { c });
        i = i + 1;
        assert(quotes_to_apostrophes(chars@.subrange(0, i as int)) =~= quotes_to_apostrophes(
            chars@.subrange(0, (i - 1) as int),
        ).push(if c == '"' { '\'' } else { c }));
    }
    assert(chars@.subrange(0, chars@.len() as int) =~= chars@);
    out.append("\"}");
    out
}

// ---------------------------------------------------------------------------
// trace_path
// ---------------------------------------------------------------------------

/// A node reached by a trace.
#[derive(Debug)]
pub struct TraceHop {
    pub name: String,
    pub label: String,
    pub file: String,
    pub depth: u64,
}

pub struct TraceHopV {
    pub name: Seq<char>,
    pub label: Seq<char>,
    pub file: Seq<char>,
    pub depth: int,
}

impl View for TraceHop {
    type V = TraceHopV;

    open spec fn view(&self) -> TraceHopV {
        TraceHopV { name: self.name@, label: self.label@, file: self.file@, depth: self.depth as int }
    }
}

/// What a trace found: the name of its first start node (if any node
/// matched), the depth it went to, and the nodes reached, in order.
#[derive(Debug)]
pub struct TraceOutcome {
    pub start_name: Option<String>,
    pub max_depth: u64,
    pub hops: Vec<TraceHop>,
}

/// Test and spec files are left out unless asked for.
pub open spec fn excluded(rec: NodeRecordV, include_tests: bool) -> bool {
    !include_tests && (has_infix(rec.file, "test"@) || has_infix(rec.file, "spec"@))
}

/// Whether a node is named by `name`: its full name or the part after the
/// last `::`.
pub open spec fn names_node(rec: NodeRecordV, name: Seq<char>) -> bool {
    rec.fqn == name || after_last(rec.fqn, "::"@) == name
}

/// The nodes a trace starts from, in store order.
pub open spec fn trace_starts(nodes: Seq<(u64, NodeRecordV)>, name: Seq<char>, include_tests: bool) -> Seq<(u64, NodeRecordV)>
    decreases nodes.len(),
{
    if nodes.len() == 0 {
        Seq::empty()
    } else {
        let prev = trace_starts(nodes.drop_last(), name, include_tests);
        if names_node(nodes.last().1, name) && !excluded(nodes.last().1, include_tests) {
            prev.push(nodes.last())
        } else {
            prev
        }
    }
}

/// Callees of `x`, in edge order (call edges only).
pub open spec fn callees(edges: Seq<(u64, u64, u8)>, x: u64) -> Seq<u64>
    decreases edges.len(),
{
    if edges.len() == 0 {
        Seq::empty()
    } else {
        let e = edges.last();
        if e.2 == 0 && e.0 == x {
            callees(edges.drop_last(), x).push(e.1)
        } else {
            callees(edges.drop_last(), x)
        }
    }
}

/// Callers of `x`, in edge order (call edges only).
pub open spec fn callers(edges: Seq<(u64, u64, u8)>, x: u64) -> Seq<u64>
    decreases edges.len(),
{
    if edges.len() == 0 {
        Seq::empty()
    } else {
        let e = edges.last();
        if e.2 == 0 && e.1 == x {
            callers(edges.drop_last(), x).push(e.0)
        } else {
            callers(edges.drop_last(), x)
        }
    }
}

/// Neighbours in the traced direction: `outbound` callees, `inbound`
/// callers, anything else both (callees first).
pub open spec fn trace_neighbors(edges: Seq<(u64, u64, u8)>, x: u64, dir: Seq<char>) -> Seq<u64> {
    if dir == "outbound"@ {
        callees(edges, x)
    } else if dir == "inbound"@ {
        callers(edges, x)
    } else {
        callees(edges, x) + callers(edges, x)
    }
}

pub struct TraceStateV {
    pub visited: Seq<u64>,
    pub hops: Seq<TraceHopV>,
    pub next: Seq<u64>,
}

pub open spec fn hop_of(rec: NodeRecordV, depth: int) -> TraceHopV {
    TraceHopV { name: rec.fqn, label: spec_kind_name(rec.kind), file: rec.file, depth }
}

/// Reaching neighbour `nb` from a node at `depth`: a node is visited once;
/// a known, not excluded node becomes a hop and joins the next level.
pub open spec fn visit(g: GraphV, include_tests: bool, st: TraceStateV, nb: u64, depth: int) -> TraceStateV {
    if st.visited.contains(nb) {
        st
    } else {
        let visited = st.visited.push(nb);
        match node_lookup(g.nodes, nb, 0) {
            Some(rec) => if excluded(rec, include_tests) {
                TraceStateV { visited, hops: st.hops, next: st.next }
            } else {
                TraceStateV { visited, hops: st.hops.push(hop_of(rec, depth + 1)), next: st.next.push(nb) }
            },
            None => TraceStateV { visited, hops: st.hops, next: st.next },
        }
    }
}

pub open spec fn visit_all(g: GraphV, include_tests: bool, st: TraceStateV, nbs: Seq<u64>, depth: int) -> TraceStateV
    decreases nbs.len(),
{
    if nbs.len() == 0 {
        st
    } else {
        visit(g, include_tests, visit_all(g, include_tests, st, nbs.drop_last(), depth), nbs.last(), depth)
    }
}

/// One breadth-first level: the neighbours of each frontier node, in order.
pub open spec fn trace_level(g: GraphV, include_tests: bool, dir: Seq<char>, st: TraceStateV, frontier: Seq<u64>, depth: int) -> TraceStateV
    decreases frontier.len(),
{
    if frontier.len() == 0 {
        st
    } else {
        let s1 = trace_level(g, include_tests, dir, st, frontier.drop_last(), depth);
        visit_all(g, include_tests, s1, trace_neighbors(g.edges, frontier.last(), dir), depth)
    }
}

/// Levels `d` up to `max` of the breadth-first trace.
pub open spec fn trace_levels(g: GraphV, include_tests: bool, dir: Seq<char>, st: TraceStateV, d: int, max: int) -> TraceStateV
    decreases max - d,
{
    if d >= max {
        st
    } else {
        let s = trace_level(g, include_tests, dir, TraceStateV { visited: st.visited, hops: st.hops, next: Seq::empty() }, st.next, d);
        trace_levels(g, include_tests, dir, s, d + 1, max)
    }
}

/// The hops of a trace from the start nodes, `max` levels deep.
pub open spec fn trace_hops(g: GraphV, starts: Seq<(u64, NodeRecordV)>, include_tests: bool, dir: Seq<char>, max: int) -> Seq<TraceHopV> {
    let ids = starts.map_values(|s: (u64, NodeRecordV)| s.0);
    trace_levels(g, include_tests, dir, TraceStateV { visited: ids, hops: Seq::empty(), next: ids }, 0, max).hops
}

/// The depth a trace goes to: the requested depth (3 by default) clamped
/// to 1..=5.
pub open spec fn spec_trace_depth(depth: Option<i64>) -> int {
    let d = match depth {
        Some(d) => d,
        None => 3,
    };
    if d < 1 {
        1
    } else if d > 5 {
        5
    } else {
        d as int
    }
}

pub fn trace_depth(depth: Option<i64>) -> (r: u64)
    ensures
        r == spec_trace_depth(depth),
{
    let d: i64 = match depth {
        Some(d) => d,
        None => 3,
    };
    if d < 1 {
        1
    } else if d > 5 {
        5
    } else {
        d as u64
    }
}

fn neighbors_of(g: &GraphSnapshot, x: u64, dir: &str) -> (r: Vec<u64>)
    ensures
        r@ == trace_neighbors(g@.edges, x, dir@),
{
    let outbound = str_eq(dir, "outbound");
    let inbound = str_eq(dir, "inbound");
    let ghost edges = g@.edges;
    let mut fwd: Vec<u64> = Vec::new();
    let mut bwd: Vec<u64> = Vec::new();
    let mut i: usize = 0;
    assert(edges.subrange(0, 0) =~= Seq::<(u64, u64, u8)>::empty());
    while i < g.edges.len()
        invariant
            i <= g.edges.len(),
            edges == g@.edges,
            fwd@ == callees(edges.subrange(0, i as int), x),
            bwd@ == callers(edges.subrange(0, i as int), x),
        decreases g.edges.len() - i,
    {
        let ghost sub = edges.subrange(0, (i + 1) as int);
        assert(sub.drop_last() =~= edges.subrange(0, i as int));
        let (a, b, k) = g.edges[i];
        if k == 0 && a == x {
            fwd.push(b);
        }
        if k == 0 && b == x {
            bwd.push(a);
        }
        i = i + 1;
    }
    assert(edges.subrange(0, edges.len() as int) =~= edges);
    if outbound {
        fwd
    } else if inbound {
        bwd
    } else {
        let mut both = fwd;
        let mut j: usize = 0;
        let ghost f = both@;
        while j < bwd.len()
            invariant
                j <= bwd.len(),
                both@ == f + bwd@.subrange(0, j as int),
            decreases bwd.len() - j,
        {
            both.push(bwd[j]);
            j = j + 1;
            assert(both@ =~= f + bwd@.subrange(0, j as int));
        }
        assert(bwd@.subrange(0, bwd@.len() as int) =~= bwd@);
        both
    }
}

fn contains_id(v: &Vec<u64>, x: u64) -> (b: bool)
    ensures
        b == v@.contains(x),
{
    let mut i: usize = 0;
    while i < v.len()
        invariant
            i <= v.len(),
            forall|k: int| 0 <= k < i ==> v@[k] != x,
        decreases v.len() - i,
    {
        if v[i] == x {
            assert(v@[i as int] == x);
            return true;
        }
        i = i + 1;
    }
    false
}

fn is_excluded(rec: &NodeRecord, include_tests: bool) -> (b: bool)
    ensures
        b == excluded(rec@, include_tests),
{
    !include_tests && (str_contains(rec.file.as_str(), "test") || str_contains(rec.file.as_str(), "spec"))
}

fn lookup_index(g: &GraphSnapshot, id: u64) -> (r: Option<usize>)
    ensures
        match r {
            Some(i) => i < g.nodes@.len() && node_lookup(g@.nodes, id, 0) == Some(g.nodes@[i as int].1@),
            None => node_lookup(g@.nodes, id, 0) is None,
        },
{
    let ghost nv = g@.nodes;
    let mut i: usize = 0;
    while i < g.nodes.len()
        invariant
            i <= g.nodes.len(),
            nv == g@.nodes,
            nv.len() == g.nodes@.len(),
            node_lookup(nv, id, 0) == node_lookup(nv, id, i as int),
        decreases g.nodes.len() - i,
    {
        if g.nodes[i].0 == id {
            return Some(i);
        }
        i = i + 1;
    }
    None
}

pub open spec fn hops_view(v: Seq<TraceHop>) -> Seq<TraceHopV> {
    v.map_values(|h: TraceHop| h@)
}

fn visit_exec(
    g: &GraphSnapshot,
    include_tests: bool,
    visited: &mut Vec<u64>,
    hops: &mut Vec<TraceHop>,
    next: &mut Vec<u64>,
    nb: u64,
    depth: u64,
)
    requires
        depth < 5,
    ensures
        ({
            let s = visit(
                g@,
                include_tests,
                TraceStateV { visited: old(visited)@, hops: hops_view(old(hops)@), next: old(next)@ },
                nb,
                depth as int,
            );
            final(visited)@ == s.visited && hops_view(final(hops)@) == s.hops && final(next)@ == s.next
        }),
{
    if contains_id(visited, nb) {
        return;
    }
    visited.push(nb);
    match lookup_index(g, nb) {
        Some(i) => {
            let rec = &g.nodes[i].1;
            if !is_excluded(rec, include_tests) {
                let ghost pre = hops_view(hops@);
                hops.push(
                    TraceHop {
                        name: rec.fqn.clone(),
                        label: String::from_str(kind_name(rec.kind)),
                        file: rec.file.clone(),
                        depth: depth + 1,
                    },
                );
                assert(hops_view(hops@) =~= pre.push(hop_of(rec@, depth + 1)));
                next.push(nb);
            }
        },
        None => {},
    }
}

/// The start nodes of a trace: those named by `name`, test files left out
/// unless asked for.
pub fn find_trace_starts(g: &GraphSnapshot, name: &str, include_tests: bool) -> (r: Vec<usize>)
    ensures
        r@.map_values(|i: usize| g@.nodes[i as int]) == trace_starts(g@.nodes, name@, include_tests),
        forall|k: int| 0 <= k < r@.len() ==> r@[k] < g.nodes@.len(),
{
    let ghost nv = g@.nodes;
    let mut out: Vec<usize> = Vec::new();
    let mut i: usize = 0;
    assert(nv.subrange(0, 0) =~= Seq::<(u64, NodeRecordV)>::empty());
    assert(out@.map_values(|i: usize| nv[i as int]) =~= Seq::<(u64, NodeRecordV)>::empty());
    while i < g.nodes.len()
        invariant
            i <= g.nodes.len(),
            nv == g@.nodes,
            nv.len() == g.nodes@.len(),
            forall|k: int| 0 <= k < out@.len() ==> out@[k] < i,
            out@.map_values(|i: usize| nv[i as int]) == trace_starts(nv.subrange(0, i as int), name@, include_tests),
        decreases g.nodes.len() - i,
    {
        let ghost sub = nv.subrange(0, (i + 1) as int);
        assert(sub.drop_last() =~= nv.subrange(0, i as int));
        let rec = &g.nodes[i].1;
        let short = str_after_last(rec.fqn.as_str(), "::");
        let named = str_eq(rec.fqn.as_str(), name) || str_eq(short.as_str(), name);
        if named && !is_excluded(rec, include_tests) {
            let ghost pre = out@.map_values(|i: usize| nv[i as int]);
            out.push(i);
            assert(out@.map_values(|i: usize| nv[i as int]) =~= pre.push(nv[i as int]));
        }
        i = i + 1;
    }
    assert(nv.subrange(0, nv.len() as int) =~= nv);
    out
}

/// Breadth-first trace over call edges from the nodes named `name`, up to
/// `max_depth` levels, in direction `dir`.
pub fn trace_path(g: &GraphSnapshot, name: &str, dir: &str, max_depth: u64, include_tests: bool) -> (r: TraceOutcome)
    requires
        1 <= max_depth <= 5,
    ensures
        ({
            let starts = trace_starts(g@.nodes, name@, include_tests);
            &&& r.max_depth == max_depth
            &&& match r.start_name {
                Some(s) => starts.len() > 0 && s@ == starts[0].1.fqn,
                None => starts.len() == 0,
            }
            &&& hops_view(r.hops@) == if starts.len() == 0 {
                Seq::<TraceHopV>::empty()
            } else {
                trace_hops(g@, starts, include_tests, dir@, max_depth as int)
            }
        }),
{
    let ghost gv = g@;
    let starts = find_trace_starts(g, name, include_tests);
    let ghost sv = trace_starts(gv.nodes, name@, include_tests);
    if starts.len() == 0 {
        let hops: Vec<TraceHop> = Vec::new();
        assert(hops_view(hops@) =~= Seq::<TraceHopV>::empty());
        return TraceOutcome { start_name: None, max_depth, hops };
    }
    assert(starts@.map_values(|i: usize| gv.nodes[i as int]).len() == sv.len());
    let mut visited: Vec<u64> = Vec::new();
    let mut frontier: Vec<u64> = Vec::new();
    let mut k: usize = 0;
    let ghost ids = sv.map_values(|s: (u64, NodeRecordV)| s.0);
    while k < starts.len()
        invariant
            k <= starts.len(),
            gv == g@,
            sv.len() == starts@.len(),
            starts@.map_values(|i: usize| gv.nodes[i as int]) == sv,
            forall|j: int| 0 <= j < starts@.len() ==> starts@[j] < g.nodes@.len(),
            ids == sv.map_values(|s: (u64, NodeRecordV)| s.0),
            visited@ == ids.subrange(0, k as int),
            frontier@ == ids.subrange(0, k as int),
        decreases starts.len() - k,
    {
        let id = g.nodes[starts[k]].0;
        assert(sv[k as int] == gv.nodes[starts@[k as int] as int]);
        visited.push(id);
        frontier.push(id);
        k = k + 1;
        assert(visited@ =~= ids.subrange(0, k as int));
        assert(frontier@ =~= ids.subrange(0, k as int));
    }
    assert(ids.subrange(0, ids.len() as int) =~= ids);
    let mut hops: Vec<TraceHop> = Vec::new();
    assert(hops_view(hops@) =~= Seq::<TraceHopV>::empty());
    let mut d: u64 = 0;
    let ghost init = TraceStateV { visited: ids, hops: Seq::empty(), next: ids };
    while d < max_depth
        invariant
            d <= max_depth <= 5,
            gv == g@,
            trace_levels(gv, include_tests, dir@, init, 0, max_depth as int) == trace_levels(
                gv,
                include_tests,
                dir@,
                TraceStateV { visited: visited@, hops: hops_view(hops@), next: frontier@ },
                d as int,
                max_depth as int,
            ),
        decreases max_depth - d,
    {
        let ghost st0 = TraceStateV { visited: visited@, hops: hops_view(hops@), next: Seq::empty() };
        let ghost fr = frontier@;
        let mut next: Vec<u64> = Vec::new();
        let mut f: usize = 0;
        assert(fr.subrange(0, 0) =~= Seq::<u64>::empty());
        while f < frontier.len()
            invariant
                f <= frontier.len(),
                d < max_depth <= 5,
                gv == g@,
                fr == frontier@,
                (TraceStateV { visited: visited@, hops: hops_view(hops@), next: next@ }) == trace_level(
                    gv,
                    include_tests,
                    dir@,
                    st0,
                    fr.subrange(0, f as int),
                    d as int,
                ),
            decreases frontier.len() - f,
        {
            let ghost sub = fr.subrange(0, (f + 1) as int);
            assert(sub.drop_last() =~= fr.subrange(0, f as int));
            let nbs = neighbors_of(g, frontier[f], dir);
            let ghost nbv = nbs@;
            let ghost s1 = TraceStateV { visited: visited@, hops: hops_view(hops@), next: next@ };
            let mut j: usize = 0;
            assert(nbv.subrange(0, 0) =~= Seq::<u64>::empty());
            while j < nbs.len()
                invariant
                    j <= nbs.len(),
                    d < 5,
                    gv == g@,
                    nbv == nbs@,
                    (TraceStateV { visited: visited@, hops: hops_view(hops@), next: next@ }) == visit_all(
                        gv,
                        include_tests,
                        s1,
                        nbv.subrange(0, j as int),
                        d as int,
                    ),
                decreases nbs.len() - j,
            {
                let ghost nsub = nbv.subrange(0, (j + 1) as int);
                assert(nsub.drop_last() =~= nbv.subrange(0, j as int));
                visit_exec(g, include_tests, &mut visited, &mut hops, &mut next, nbs[j], d);
                j = j + 1;
            }
            assert(nbv.subrange(0, nbv.len() as int) =~= nbv);
            f = f + 1;
        }
        assert(fr.subrange(0, fr.len() as int) =~= fr);
        frontier = next;
        d = d + 1;
    }
    let first = &g.nodes[starts[0]].1;
    assert(sv[0] == gv.nodes[starts@[0] as int]);
    TraceOutcome { start_name: Some(first.fqn.clone()), max_depth, hops }
}

} // verus!
