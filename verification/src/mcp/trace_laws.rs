//! Laws of call-path tracing: which nodes a trace may show.

use vstd::prelude::*;
use crate::cypher::executor::GraphV;
use crate::mcp::{
    TraceHopV, TraceStateV, excluded, hop_of, trace_hops, trace_level, trace_levels, trace_starts, visit, visit_all,
};
use crate::store::NodeRecordV;
use crate::text::{has_infix, occurs_at};

verus! {

/// `w` appears somewhere in `f`.
pub open spec fn mentions(f: Seq<char>, w: Seq<char>) -> bool {
    exists|i: int| 0 <= i && i + w.len() <= f.len() && #[trigger] f.subrange(i, i + w.len()) == w
}

/// A file path naming neither tests nor specs.
pub open spec fn not_test_file(f: Seq<char>) -> bool {
    !mentions(f, "test"@) && !mentions(f, "spec"@)
}

pub open spec fn hops_outside_tests(hs: Seq<TraceHopV>) -> bool {
    forall|k: int| 0 <= k < hs.len() ==> not_test_file(#[trigger] hs[k].file)
}

proof fn mentions_is_infix(f: Seq<char>, w: Seq<char>)
    ensures
        mentions(f, w) == has_infix(f, w),
{
    if mentions(f, w) {
        let i = choose|i: int| 0 <= i && i + w.len() <= f.len() && #[trigger] f.subrange(i, i + w.len()) == w;
        assert(occurs_at(f, w, i));
    }
    if has_infix(f, w) {
        let i = choose|i: int| occurs_at(f, w, i);
        assert(0 <= i && i + w.len() <= f.len() && f.subrange(i, i + w.len()) == w);
    }
}

/// A node is left out of a trace exactly when tests are not asked for and
/// its file path contains "test" or "spec".
pub proof fn excluded_means_test_or_spec_file(rec: NodeRecordV, include_tests: bool)
    ensures
        excluded(rec, include_tests) == (!include_tests && (mentions(rec.file, "test"@) || mentions(rec.file, "spec"@))),
{
    mentions_is_infix(rec.file, "test"@);
    mentions_is_infix(rec.file, "spec"@);
}

proof fn visit_keeps_tests_out(g: GraphV, st: TraceStateV, nb: u64, depth: int)
    requires
        hops_outside_tests(st.hops),
    ensures
        hops_outside_tests(visit(g, false, st, nb, depth).hops),
{
    let r = visit(g, false, st, nb, depth);
    if r.hops.len() > st.hops.len() {
        assert forall|k: int| 0 <= k < r.hops.len() implies not_test_file(#[trigger] r.hops[k].file) by {
            if k < st.hops.len() {
                assert(r.hops[k] == st.hops[k]);
            } else {
                let n = crate::cypher::executor::node_lookup(g.nodes, nb, 0)->0;
                excluded_means_test_or_spec_file(n, false);
                assert(r.hops[k] == hop_of(n, depth + 1));
            }
        }
    }
}

proof fn visit_all_keeps_tests_out(g: GraphV, st: TraceStateV, nbs: Seq<u64>, depth: int)
    requires
        hops_outside_tests(st.hops),
    ensures
        hops_outside_tests(visit_all(g, false, st, nbs, depth).hops),
    decreases nbs.len(),
{
    if nbs.len() > 0 {
        visit_all_keeps_tests_out(g, st, nbs.drop_last(), depth);
        visit_keeps_tests_out(g, visit_all(g, false, st, nbs.drop_last(), depth), nbs.last(), depth);
    }
}

proof fn level_keeps_tests_out(g: GraphV, dir: Seq<char>, st: TraceStateV, frontier: Seq<u64>, depth: int)
    requires
        hops_outside_tests(st.hops),
    ensures
        hops_outside_tests(trace_level(g, false, dir, st, frontier, depth).hops),
    decreases frontier.len(),
{
    if frontier.len() > 0 {
        level_keeps_tests_out(g, dir, st, frontier.drop_last(), depth);
        let s1 = trace_level(g, false, dir, st, frontier.drop_last(), depth);
        visit_all_keeps_tests_out(g, s1, crate::mcp::trace_neighbors(g.edges, frontier.last(), dir), depth);
    }
}

proof fn levels_keep_tests_out(g: GraphV, dir: Seq<char>, st: TraceStateV, d: int, max: int)
    requires
        hops_outside_tests(st.hops),
    ensures
        hops_outside_tests(trace_levels(g, false, dir, st, d, max).hops),
    decreases max - d,
{
    if d < max {
        let st0 = TraceStateV { visited: st.visited, hops: st.hops, next: Seq::empty() };
        level_keeps_tests_out(g, dir, st0, st.next, d);
        levels_keep_tests_out(g, dir, trace_level(g, false, dir, st0, st.next, d), d + 1, max);
    }
}

/// Without tests asked for, a trace neither starts from nor reaches a node
/// whose file path contains "test" or "spec".
pub proof fn traces_leave_out_test_files(
    g: GraphV,
    name: Seq<char>,
    starts: Seq<(u64, NodeRecordV)>,
    dir: Seq<char>,
    max: int,
)
    ensures
        forall|k: int|
            0 <= k < trace_starts(g.nodes, name, false).len() ==> not_test_file(
                (#[trigger] trace_starts(g.nodes, name, false)[k]).1.file,
            ),
        hops_outside_tests(trace_hops(g, starts, false, dir, max)),
{
    starts_outside_tests(g.nodes, name);
    let ids = starts.map_values(|s: (u64, NodeRecordV)| s.0);
    levels_keep_tests_out(g, dir, TraceStateV { visited: ids, hops: Seq::empty(), next: ids }, 0, max);
}

proof fn starts_outside_tests(nodes: Seq<(u64, NodeRecordV)>, name: Seq<char>)
    ensures
        forall|k: int|
            0 <= k < trace_starts(nodes, name, false).len() ==> not_test_file(
                (#[trigger] trace_starts(nodes, name, false)[k]).1.file,
            ),
    decreases nodes.len(),
{
    if nodes.len() > 0 {
        starts_outside_tests(nodes.drop_last(), name);
        let prev = trace_starts(nodes.drop_last(), name, false);
        let s = trace_starts(nodes, name, false);
        excluded_means_test_or_spec_file(nodes.last().1, false);
        assert forall|k: int| 0 <= k < s.len() implies not_test_file((#[trigger] s[k]).1.file) by {
            if k < prev.len() {
                assert(s[k] == prev[k]);
            }
        }
    }
}

} // verus!
