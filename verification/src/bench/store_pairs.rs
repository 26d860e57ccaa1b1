//! Projection of a Grafy store's edges into `(caller tail, callee tail)`
//! pairs, filtered by edge kind.

use vstd::prelude::*;
use crate::cypher::executor::{GraphSnapshot, GraphV, node_lookup};
use crate::store::NodeRecordV;
use crate::text::{
    chars_of, last_occurrence, push_debug_str, debug_escaped, split_chars, split_on, str_after_last, str_eq, trim,
    trim_chars, rfind_chars, string_from_chars,
};

verus! {

/// Which edge kinds to keep: call edges, SCIP reference edges, or both.
#[derive(Debug, Clone, Copy, PartialEq, Eq, Structural)]
pub enum EdgeKindFilter {
    Calls,
    Scip,
    Both,
}

/// Whether some comma-separated item of `s`, trimmed, equals `word`.
pub open spec fn lists_item(s: Seq<char>, word: Seq<char>) -> bool {
    exists|i: int| 0 <= i < split_on(s, ',').len() && trim(#[trigger] split_on(s, ',')[i]) == word
}

/// The message for a filter naming neither kind.
pub open spec fn filter_error_message(s: Seq<char>) -> Seq<char> {
    "--include-edges expected one of: calls, scip, calls,scip — got "@ + seq!['"'] + debug_escaped(s) + seq!['"']
}

impl EdgeKindFilter {
    /// Parses a comma-separated list naming `calls`, `scip` or both.
    pub fn parse(s: &str) -> (r: Result<EdgeKindFilter, String>)
        ensures
            ({
                let c = lists_item(s@, "calls"@);
                let k = lists_item(s@, "scip"@);
                match r {
                    Ok(f) => (c || k) && f == if c && k {
                        EdgeKindFilter::Both
                    } else if c {
                        EdgeKindFilter::Calls
                    } else {
                        EdgeKindFilter::Scip
                    },
                    Err(m) => !c && !k && m@ == filter_error_message(s@),
                }
            }),
    {
        let cs = chars_of(s);
        let parts = split_chars(&cs, ',');
        let ghost pv = parts@.map_values(|p: Vec<char>| p@);
        let mut calls = false;
        let mut scip = false;
        let mut i: usize = 0;
        while i < parts.len()
            invariant
                i <= parts.len(),
                pv == parts@.map_values(|p: Vec<char>| p@),
                pv == split_on(s@, ','),
                calls == exists|j: int| 0 <= j < i && trim(#[trigger] pv[j]) == "calls"@,
                scip == exists|j: int| 0 <= j < i && trim(#[trigger] pv[j]) == "scip"@,
            decreases parts.len() - i,
        {
            let t = trim_chars(&parts[i]);
            let ts = string_from_chars(t.as_slice());
            assert(pv[i as int] == parts@[i as int]@);
            if str_eq(ts.as_str(), "calls") {
                calls = true;
            }
            if str_eq(ts.as_str(), "scip") {
                scip = true;
            }
            i = i + 1;
        }
        if calls && scip {
            Ok(EdgeKindFilter::Both)
        } else if calls {
            Ok(EdgeKindFilter::Calls)
        } else if scip {
            Ok(EdgeKindFilter::Scip)
        } else {
            let mut m = String::from_str("--include-edges expected one of: calls, scip, calls,scip — got ");
            push_debug_str(&mut m, s);
            Err(m)
        }
    }

    pub open spec fn spec_matches(self, kind: u8) -> bool {
        match self {
            EdgeKindFilter::Calls => kind == 0,
            EdgeKindFilter::Scip => kind == 2,
            EdgeKindFilter::Both => kind == 0 || kind == 2,
        }
    }

    /// Whether an edge of this kind byte is kept (0 = calls, 2 = SCIP).
    pub fn matches(self, kind: u8) -> (b: bool)
        ensures
            b == self.spec_matches(kind),
    {
        match self {
            EdgeKindFilter::Calls => kind == 0,
            EdgeKindFilter::Scip => kind == 2,
            EdgeKindFilter::Both => kind == 0 || kind == 2,
        }
    }
}

/// Where the tail of a name starts: after the last `::` or the last `.`,
/// whichever ends later; 0 when there is neither.
pub open spec fn fqn_tail_start(f: Seq<char>) -> int {
    let k = last_occurrence(f, "::"@, f.len() - 2);
    let d = last_occurrence(f, "."@, f.len() - 1);
    let a = if k >= 0 { k + 2 } else { 0 };
    let b = if d >= 0 { d + 1 } else { 0 };
    if a >= b { a } else { b }
}

/// The last identifier of a dotted or `::`-separated name: what follows
/// the last separator of either kind, or the whole name when it has none.
pub open spec fn spec_fqn_tail(f: Seq<char>) -> Seq<char> {
    f.subrange(fqn_tail_start(f), f.len() as int)
}

/// The last identifier of an FQN (`a.b.c` → `c`, `mod::Type` → `Type`,
/// `a::b.c` → `c`).
pub fn fqn_tail(fqn: &str) -> (r: String)
    ensures
        r@ == spec_fqn_tail(fqn@),
{
    proof {
        reveal_strlit("::");
        reveal_strlit(".");
    }
    let cs = chars_of(fqn);
    let n = cs.len();
    let sep = chars_of("::");
    let dot = chars_of(".");
    assert(sep@.len() == 2);
    assert(dot@.len() == 1);
    let a: usize = match rfind_chars(&cs, &sep) {
        Some(k) => k + 2,
        None => 0,
    };
    let b: usize = match rfind_chars(&cs, &dot) {
        Some(d) => d + 1,
        None => 0,
    };
    let start = if a >= b { a } else { b };
    let rest = crate::text::chars_slice(&cs, start, n);
    string_from_chars(rest.as_slice())
}

/// The FQN of the first node with id `id`.
pub open spec fn fqn_of(nodes: Seq<(u64, NodeRecordV)>, id: u64) -> Option<Seq<char>> {
    match node_lookup(nodes, id, 0) {
        Some(r) => Some(r.fqn),
        None => None,
    }
}

/// The distinct `(caller tail, callee tail)` pairs of the kept edges whose
/// ends are both known nodes, in order of first appearance.
pub open spec fn edge_pairs_spec(g: GraphV, edges: Seq<(u64, u64, u8)>, f: EdgeKindFilter) -> Seq<(Seq<char>, Seq<char>)>
    decreases edges.len(),
{
    if edges.len() == 0 {
        Seq::empty()
    } else {
        let prev = edge_pairs_spec(g, edges.drop_last(), f);
        let e = edges.last();
        if f.spec_matches(e.2) && fqn_of(g.nodes, e.0) is Some && fqn_of(g.nodes, e.1) is Some {
            let p = (spec_fqn_tail(fqn_of(g.nodes, e.0)->Some_0), spec_fqn_tail(fqn_of(g.nodes, e.1)->Some_0));
            if prev.contains(p) {
                prev
            } else {
                prev.push(p)
            }
        } else {
            prev
        }
    }
}

pub open spec fn pairs_view(v: Seq<(String, String)>) -> Seq<(Seq<char>, Seq<char>)> {
    v.map_values(|p: (String, String)| (p.0@, p.1@))
}

fn find_node(g: &GraphSnapshot, id: u64) -> (r: Option<usize>)
    ensures
        match r {
            Some(i) => i < g.nodes@.len() && fqn_of(g@.nodes, id) == Some(g.nodes@[i as int].1.fqn@),
            None => fqn_of(g@.nodes, id) is None,
        },
{
    let ghost nv = g@.nodes;
    let mut i: usize = 0;
    while i < g.nodes.len()
        invariant
            i <= g.nodes.len(),
            nv == g@.nodes,
            nv.len() == g.nodes@.len(),
            node_lookup(nv, id, 0) == node_lookup(nv, id, i as int),
        decreases g.nodes.len() - i,
    {
        if g.nodes[i].0 == id {
            return Some(i);
        }
        i = i + 1;
    }
    None
}

fn contains_pair(v: &Vec<(String, String)>, a: &String, b: &String) -> (r: bool)
    ensures
        r == pairs_view(v@).contains((a@, b@)),
{
    let mut i: usize = 0;
    while i < v.len()
        invariant
            i <= v.len(),
            forall|k: int| 0 <= k < i ==> (v@[k].0@, v@[k].1@) != (a@, b@),
        decreases v.len() - i,
    {
        if str_eq(v[i].0.as_str(), a.as_str()) && str_eq(v[i].1.as_str(), b.as_str()) {
            assert(pairs_view(v@)[i as int] == (a@, b@));
            return true;
        }
        i = i + 1;
    }
    false
}

/// The edge pairs of a store snapshot under a kind filter.
pub fn edge_pairs(g: &GraphSnapshot, f: EdgeKindFilter) -> (r: Vec<(String, String)>)
    ensures
        pairs_view(r@) == edge_pairs_spec(g@, g@.edges, f),
{
    let ghost gv = g@;
    let mut out: Vec<(String, String)> = Vec::new();
    let mut i: usize = 0;
    assert(gv.edges.subrange(0, 0) =~= Seq::<(u64, u64, u8)>::empty());
    assert(pairs_view(out@) =~= Seq::<(Seq<char>, Seq<char>)>::empty());
    while i < g.edges.len()
        invariant
            i <= g.edges.len(),
            gv == g@,
            pairs_view(out@) == edge_pairs_spec(gv, gv.edges.subrange(0, i as int), f),
        decreases g.edges.len() - i,
    {
        let ghost sub = gv.edges.subrange(0, (i + 1) as int);
        assert(sub.drop_last() =~= gv.edges.subrange(0, i as int));
        let (from, to, kind) = g.edges[i];
        if f.matches(kind) {
            match find_node(g, from) {
                Some(a) => match find_node(g, to) {
                    Some(b) => {
                        let ta = fqn_tail(g.nodes[a].1.fqn.as_str());
                        let tb = fqn_tail(g.nodes[b].1.fqn.as_str());
                        if !contains_pair(&out, &ta, &tb) {
                            let ghost pre = pairs_view(out@);
                            let ghost pv = (ta@, tb@);
                            out.push((ta, tb));
                            assert(pairs_view(out@) =~= pre.push(pv));
                        }
                    },
                    None => {},
                },
                None => {},
            }
        }
        i = i + 1;
    }
    assert(gv.edges.subrange(0, gv.edges.len() as int) =~= gv.edges);
    out
}

} // verus!
