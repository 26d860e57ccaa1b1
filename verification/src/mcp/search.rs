//! Graph search, snippet lookup, schema and architecture summaries, and
//! code search over the indexed files.

use vstd::prelude::*;
use crate::cypher::executor::{GraphSnapshot, GraphV};
use crate::cypher::plan::{kind_name, spec_kind_name};
use crate::pattern::{CompiledRegex, regex_compiles, regex_escape, regex_escaped, regex_matches};
use crate::store::{NodeKind, NodeRecord, NodeRecordV};
use crate::text::{
    after_last, chars_of, eq_ignoring_ascii_case, has_infix, has_prefix, has_suffix, str_after_last, str_contains,
    str_ends_with, str_eq, str_eq_ignore_ascii_case, str_starts_with,
};

verus! {

/// The Unicode lower-case form of a string.
pub uninterp spec fn lowercased(s: Seq<char>) -> Seq<char>;

/// Calls `str::to_lowercase`: the Unicode lower-case form of `s`.
#[verifier::external_body]
fn to_lowercase(s: &str) -> (r: String)
    ensures
        r@ == lowercased(s@),
{
    s.to_lowercase()
}

pub open spec fn opt_text(o: Option<String>) -> Seq<char> {
    match o {
        Some(s) => s@,
        None => Seq::empty(),
    }
}

/// An empty pattern, or one the regex crate rejects, filters nothing.
pub open spec fn regex_filter_ok(pat: Seq<char>, hay: Seq<char>) -> bool {
    pat.len() == 0 || !regex_compiles(pat) || regex_matches(pat, hay)
}

/// Whether `search_graph` reports a node.
pub open spec fn search_hit(rec: NodeRecordV, label: Seq<char>, name_pat: Seq<char>, file_pat: Seq<char>, query: Seq<char>) -> bool {
    &&& (label.len() == 0 || eq_ignoring_ascii_case(spec_kind_name(rec.kind), label))
    &&& regex_filter_ok(name_pat, rec.fqn)
    &&& regex_filter_ok(file_pat, rec.file)
    &&& (query.len() == 0 || has_infix(lowercased(rec.fqn), lowercased(query)))
}

/// All nodes `search_graph` reports, in store order.
pub open spec fn search_matches(
    nodes: Seq<(u64, NodeRecordV)>,
    label: Seq<char>,
    name_pat: Seq<char>,
    file_pat: Seq<char>,
    query: Seq<char>,
) -> Seq<NodeRecordV>
    decreases nodes.len(),
{
    if nodes.len() == 0 {
        Seq::empty()
    } else {
        let prev = search_matches(nodes.drop_last(), label, name_pat, file_pat, query);
        if search_hit(nodes.last().1, label, name_pat, file_pat, query) {
            prev.push(nodes.last().1)
        } else {
            prev
        }
    }
}

/// A node reported by `search_graph`.
#[derive(Debug)]
pub struct SearchHit {
    pub name: String,
    pub label: String,
    pub file: String,
    pub byte_start: u32,
    pub byte_end: u32,
}

pub open spec fn hit_of(rec: NodeRecordV) -> (Seq<char>, Seq<char>, Seq<char>, u32, u32) {
    (rec.fqn, spec_kind_name(rec.kind), rec.file, rec.byte_start, rec.byte_end)
}

impl View for SearchHit {
    type V = (Seq<char>, Seq<char>, Seq<char>, u32, u32);

    open spec fn view(&self) -> (Seq<char>, Seq<char>, Seq<char>, u32, u32) {
        (self.name@, self.label@, self.file@, self.byte_start, self.byte_end)
    }
}

/// One page of `search_graph` results.
#[derive(Debug)]
pub struct SearchPage {
    pub results: Vec<SearchHit>,
    pub total: usize,
    pub has_more: bool,
    pub offset: usize,
    pub limit: usize,
}

/// Page size: the requested limit (200 by default), at least 1.
pub open spec fn page_limit(limit: Option<i64>) -> usize {
    let l = match limit {
        Some(l) => l,
        None => 200,
    };
    (if l < 1 { 1i64 } else { l }) as usize
}

/// Rows skipped: the requested offset (0 by default), at least 0.
pub open spec fn page_offset(offset: Option<i64>) -> usize {
    let o = match offset {
        Some(o) => o,
        None => 0,
    };
    (if o < 0 { 0i64 } else { o }) as usize
}

fn make_hit(rec: &NodeRecord) -> (h: SearchHit)
    ensures
        h@ == hit_of(rec@),
{
    SearchHit {
        name: rec.fqn.clone(),
        label: String::from_str(kind_name(rec.kind)),
        file: rec.file.clone(),
        byte_start: rec.byte_start,
        byte_end: rec.byte_end,
    }
}

fn compile_filter(pat: &str) -> (r: Option<CompiledRegex>)
    ensures
        match r {
            Some(c) => pat@.len() > 0 && regex_compiles(pat@) && c.source() == pat@,
            None => pat@.len() == 0 || !regex_compiles(pat@),
        },
{
    if pat.unicode_len() == 0 {
        None
    } else {
        CompiledRegex::new(pat)
    }
}

fn filter_ok(re: &Option<CompiledRegex>, hay: &str) -> (b: bool)
    ensures
        match re {
            Some(c) => b == regex_matches(c.source(), hay@),
            None => b,
        },
{
    match re {
        Some(c) => c.is_match(hay),
        None => true,
    }
}

/// `search_graph`: the nodes passing the label, name, file and text
/// filters, paged by offset and limit, with the total count.
pub fn search_graph(g: &GraphSnapshot, p: &SearchGraphParamsRef) -> (r: SearchPage)
    ensures
        ({
            let m = search_matches(g@.nodes, p.label@, p.name_pattern@, p.file_pattern@, p.query@);
            let lo = if p.offset < m.len() { p.offset as int } else { m.len() as int };
            let hi = if p.offset + p.limit < m.len() { p.offset + p.limit } else { m.len() as int };
            &&& r.total == m.len()
            &&& r.results@.map_values(|h: SearchHit| h@) == m.subrange(lo, hi).map_values(|rec: NodeRecordV| hit_of(rec))
            &&& r.has_more == (m.len() > p.offset + r.results@.len())
            &&& r.offset == p.offset
            &&& r.limit == p.limit
        }),
{
    let name_re = compile_filter(p.name_pattern.as_str());
    let file_re = compile_filter(p.file_pattern.as_str());
    let has_label = p.label.unicode_len() > 0;
    let has_query = p.query.unicode_len() > 0;
    let q_lower = to_lowercase(p.query.as_str());
    let ghost nv = g@.nodes;
    let ghost lbl = p.label@;
    let ghost np = p.name_pattern@;
    let ghost fp = p.file_pattern@;
    let ghost q = p.query@;
    let mut results: Vec<SearchHit> = Vec::new();
    let mut total: usize = 0;
    let mut i: usize = 0;
    assert(nv.subrange(0, 0) =~= Seq::<(u64, NodeRecordV)>::empty());
    while i < g.nodes.len()
        invariant
            i <= g.nodes.len(),
            nv == g@.nodes,
            nv.len() == g.nodes@.len(),
            lbl == p.label@,
            np == p.name_pattern@,
            fp == p.file_pattern@,
            q == p.query@,
            has_label == (lbl.len() > 0),
            has_query == (q.len() > 0),
            q_lower@ == lowercased(q),
            match name_re {
                Some(c) => np.len() > 0 && regex_compiles(np) && c.source() == np,
                None => np.len() == 0 || !regex_compiles(np),
            },
            match file_re {
                Some(c) => fp.len() > 0 && regex_compiles(fp) && c.source() == fp,
                None => fp.len() == 0 || !regex_compiles(fp),
            },
            total <= i,
            ({
                let m = search_matches(nv.subrange(0, i as int), lbl, np, fp, q);
                let lo = if p.offset < m.len() { p.offset as int } else { m.len() as int };
                let hi = if p.offset + p.limit < m.len() { p.offset + p.limit } else { m.len() as int };
                &&& total == m.len()
                &&& results@.map_values(|h: SearchHit| h@) == m.subrange(lo, hi).map_values(|rec: NodeRecordV| hit_of(rec))
            }),
        decreases g.nodes.len() - i,
    {
        let ghost sub = nv.subrange(0, (i + 1) as int);
        assert(sub.drop_last() =~= nv.subrange(0, i as int));
        let rec = &g.nodes[i].1;
        let label_ok = !has_label || str_eq_ignore_ascii_case(kind_name(rec.kind), p.label.as_str());
        let name_ok = filter_ok(&name_re, rec.fqn.as_str());
        let file_ok = filter_ok(&file_re, rec.file.as_str());
        let query_ok = if has_query {
            let f_lower = to_lowercase(rec.fqn.as_str());
            str_contains(f_lower.as_str(), q_lower.as_str())
        } else {
            true
        };
        let ghost m0 = search_matches(nv.subrange(0, i as int), lbl, np, fp, q);
        if label_ok && name_ok && file_ok && query_ok {
            assert(search_hit(rec@, lbl, np, fp, q));
            let ghost m1 = m0.push(rec@);
            assert(search_matches(sub, lbl, np, fp, q) == m1);
            total = total + 1;
            if total > p.offset && results.len() < p.limit {
                let ghost pre = results@.map_values(|h: SearchHit| h@);
                results.push(make_hit(rec));
                assert(results@.map_values(|h: SearchHit| h@) =~= pre.push(hit_of(rec@)));
                let ghost lo0 = if p.offset < m0.len() { p.offset as int } else { m0.len() as int };
                let ghost hi0 = if p.offset + p.limit < m0.len() { p.offset + p.limit } else { m0.len() as int };
                assert(m1.subrange(lo0, hi0 + 1) =~= m0.subrange(lo0, hi0).push(rec@));
                assert(m1.subrange(lo0, hi0 + 1).map_values(|rec: NodeRecordV| hit_of(rec)) =~= m0.subrange(lo0, hi0).map_values(
                    |rec: NodeRecordV| hit_of(rec),
                ).push(hit_of(rec@)));
            } else {
                let ghost lo0 = if p.offset < m0.len() { p.offset as int } else { m0.len() as int };
                let ghost hi0 = if p.offset + p.limit < m0.len() { p.offset + p.limit } else { m0.len() as int };
                let ghost lo1 = if p.offset < m1.len() { p.offset as int } else { m1.len() as int };
                let ghost hi1 = if p.offset + p.limit < m1.len() { p.offset + p.limit } else { m1.len() as int };
                assert(results@.map_values(|h: SearchHit| h@).len() == results@.len());
                assert(m0.subrange(lo0, hi0).map_values(|rec: NodeRecordV| hit_of(rec)).len() == hi0 - lo0);
                assert(results@.len() == hi0 - lo0);
                proof {
                    if m1.len() <= p.offset as nat {
                        assert(m1.subrange(lo1, hi1) =~= Seq::<NodeRecordV>::empty());
                        assert(m0.subrange(lo0, hi0) =~= Seq::<NodeRecordV>::empty());
                    } else {
                        assert(lo1 == lo0 && hi1 == hi0);
                    }
                }
                assert(m1.subrange(lo1, hi1) =~= m0.subrange(lo0, hi0));
            }
        } else {
            assert(!search_hit(rec@, lbl, np, fp, q));
            assert(search_matches(sub, lbl, np, fp, q) == m0);
        }
        i = i + 1;
    }
    assert(nv.subrange(0, nv.len() as int) =~= nv);
    let has_more = total > p.offset && total - p.offset > results.len();
    SearchPage { results, total, has_more, offset: p.offset, limit: p.limit }
}

/// The filters of `search_graph`, with absent texts empty and the paging
/// values already normalised (see `search_request`).
#[derive(Debug)]
pub struct SearchGraphParamsRef {
    pub label: String,
    pub name_pattern: String,
    pub file_pattern: String,
    pub query: String,
    pub offset: usize,
    pub limit: usize,
}

fn text_or_empty(o: &Option<String>) -> (s: String)
    ensures
        s@ == opt_text(*o),
{
    match o {
        Some(t) => t.clone(),
        None => String::new(),
    }
}

/// The normalised filters of a `search_graph` call.
pub fn search_request(p: &crate::mcp::SearchGraphParams) -> (r: SearchGraphParamsRef)
    ensures
        r.label@ == opt_text(p.label),
        r.name_pattern@ == opt_text(p.name_pattern),
        r.file_pattern@ == opt_text(p.file_pattern),
        r.query@ == opt_text(p.query),
        r.offset == page_offset(p.offset),
        r.limit == page_limit(p.limit),
{
    let l: i64 = match p.limit {
        Some(l) => l,
        None => 200,
    };
    let o: i64 = match p.offset {
        Some(o) => o,
        None => 0,
    };
    SearchGraphParamsRef {
        label: text_or_empty(&p.label),
        name_pattern: text_or_empty(&p.name_pattern),
        file_pattern: text_or_empty(&p.file_pattern),
        query: text_or_empty(&p.query),
        offset: (if o < 0 { 0i64 } else { o }) as usize,
        limit: (if l < 1 { 1i64 } else { l }) as usize,
    }
}


// ---------------------------------------------------------------------------
// get_code_snippet
// ---------------------------------------------------------------------------

/// The nodes a qualified (or short) name selects, in store order.
pub open spec fn snippet_matches(nodes: Seq<(u64, NodeRecordV)>, name: Seq<char>) -> Seq<NodeRecordV>
    decreases nodes.len(),
{
    if nodes.len() == 0 {
        Seq::empty()
    } else {
        let prev = snippet_matches(nodes.drop_last(), name);
        if crate::mcp::names_node(nodes.last().1, name) {
            prev.push(nodes.last().1)
        } else {
            prev
        }
    }
}

/// What `get_code_snippet` finds for a name.
#[derive(Debug)]
pub enum SnippetLookup {
    /// No node has that name.
    NotFound,
    /// Several nodes share a short name: their full names.
    Ambiguous(Vec<String>),
    /// The node whose source to show.
    Found(usize),
}

/// Looks a symbol up by full name or short name. Several matches are
/// ambiguous unless the first one is named in full.
pub fn lookup_snippet(g: &GraphSnapshot, name: &str) -> (r: SnippetLookup)
    ensures
        ({
            let m = snippet_matches(g@.nodes, name@);
            match r {
                SnippetLookup::NotFound => m.len() == 0,
                SnippetLookup::Ambiguous(names) => m.len() > 1 && m[0].fqn != name@
                    && names@.map_values(|s: String| s@) == m.map_values(|rec: NodeRecordV| rec.fqn),
                SnippetLookup::Found(i) => m.len() > 0 && (m.len() == 1 || m[0].fqn == name@) && i < g.nodes@.len()
                    && g@.nodes[i as int].1 == m[0],
            }
        }),
{
    let ghost nv = g@.nodes;
    let mut found: Vec<usize> = Vec::new();
    let mut i: usize = 0;
    assert(nv.subrange(0, 0) =~= Seq::<(u64, NodeRecordV)>::empty());
    assert(found@.map_values(|k: usize| nv[k as int].1) =~= Seq::<NodeRecordV>::empty());
    while i < g.nodes.len()
        invariant
            i <= g.nodes.len(),
            nv == g@.nodes,
            nv.len() == g.nodes@.len(),
            forall|k: int| 0 <= k < found@.len() ==> found@[k] < i,
            found@.map_values(|k: usize| nv[k as int].1) == snippet_matches(nv.subrange(0, i as int), name@),
        decreases g.nodes.len() - i,
    {
        let ghost sub = nv.subrange(0, (i + 1) as int);
        assert(sub.drop_last() =~= nv.subrange(0, i as int));
        let rec = &g.nodes[i].1;
        let short = str_after_last(rec.fqn.as_str(), "::");
        if str_eq(rec.fqn.as_str(), name) || str_eq(short.as_str(), name) {
            let ghost pre = found@.map_values(|k: usize| nv[k as int].1);
            found.push(i);
            assert(found@.map_values(|k: usize| nv[k as int].1) =~= pre.push(nv[i as int].1));
        }
        i = i + 1;
    }
    assert(nv.subrange(0, nv.len() as int) =~= nv);
    let ghost m = snippet_matches(nv, name@);
    if found.len() == 0 {
        return SnippetLookup::NotFound;
    }
    assert(m[0] == nv[found@[0] as int].1);
    if found.len() > 1 && !str_eq(g.nodes[found[0]].1.fqn.as_str(), name) {
        let mut names: Vec<String> = Vec::new();
        let mut k: usize = 0;
        while k < found.len()
            invariant
                k <= found.len(),
                nv == g@.nodes,
                nv.len() == g.nodes@.len(),
                forall|j: int| 0 <= j < found@.len() ==> found@[j] < nv.len(),
                m == found@.map_values(|j: usize| nv[j as int].1),
                names@.len() == k,
                forall|j: int| 0 <= j < k ==> #[trigger] names@[j]@ == m[j].fqn,
            decreases found.len() - k,
        {
            names.push(g.nodes[found[k]].1.fqn.clone());
            k = k + 1;
        }
        assert(names@.map_values(|s: String| s@) =~= m.map_values(|rec: NodeRecordV| rec.fqn));
        return SnippetLookup::Ambiguous(names);
    }
    SnippetLookup::Found(found[0])
}

/// The byte range of a node's source to show: its own range where that
/// lies within the file, otherwise `None` (the whole file is shown).
pub fn snippet_bounds(source_len: usize, byte_start: u32, byte_end: u32) -> (r: Option<(usize, usize)>)
    ensures
        r == if byte_end <= source_len && byte_start <= byte_end {
            Some((byte_start as usize, byte_end as usize))
        } else {
            None::<(usize, usize)>
        },
{
    if (byte_end as usize) <= source_len && byte_start <= byte_end {
        Some((byte_start as usize, byte_end as usize))
    } else {
        None
    }
}

// ---------------------------------------------------------------------------
// get_graph_schema and get_architecture
// ---------------------------------------------------------------------------

/// Index of the entry for `k` at or after `i`, or the tally's length.
pub open spec fn tally_find(t: Seq<(Seq<char>, int)>, k: Seq<char>, i: int) -> int
    decreases t.len() - i,
{
    if i < 0 || i >= t.len() {
        t.len() as int
    } else if t[i].0 == k {
        i
    } else {
        tally_find(t, k, i + 1)
    }
}

/// Counts of each key, keys in order of first appearance.
pub open spec fn tally(keys: Seq<Seq<char>>) -> Seq<(Seq<char>, int)>
    decreases keys.len(),
{
    if keys.len() == 0 {
        Seq::empty()
    } else {
        let t = tally(keys.drop_last());
        let k = keys.last();
        let i = tally_find(t, k, 0);
        if i < t.len() {
            t.update(i, (k, t[i].1 + 1))
        } else {
            t.push((k, 1))
        }
    }
}

/// The name an edge kind is counted under in the schema.
pub open spec fn schema_edge_name(kind: u8) -> Seq<char> {
    if kind == 0 {
        "CALLS"@
    } else {
        "ROUTES"@
    }
}

pub open spec fn tally_view(v: Seq<(String, usize)>) -> Seq<(Seq<char>, int)> {
    v.map_values(|e: (String, usize)| (e.0@, e.1 as int))
}

proof fn tally_find_range(t: Seq<(Seq<char>, int)>, k: Seq<char>, i: int)
    requires
        0 <= i <= t.len(),
    ensures
        i <= tally_find(t, k, i) <= t.len(),
    decreases t.len() - i,
{
    if i < t.len() && t[i].0 != k {
        tally_find_range(t, k, i + 1);
    }
}

proof fn tally_bounds(keys: Seq<Seq<char>>)
    ensures
        forall|j: int| 0 <= j < tally(keys).len() ==> #[trigger] tally(keys)[j].1 <= keys.len(),
    decreases keys.len(),
{
    if keys.len() > 0 {
        let t = tally(keys.drop_last());
        tally_bounds(keys.drop_last());
        let k = keys.last();
        let i = tally_find(t, k, 0);
        tally_find_range(t, k, 0);
        assert forall|j: int| 0 <= j < tally(keys).len() implies #[trigger] tally(keys)[j].1 <= keys.len() by {
            if j < t.len() {
                assert(t[j].1 <= keys.len() - 1);
            }
            if i < t.len() && j == i {
                assert(t[i].1 <= keys.len() - 1);
            }
        }
    }
}

fn tally_add(t: &mut Vec<(String, usize)>, k: &str, Ghost(n): Ghost<int>)
    requires
        forall|j: int| 0 <= j < old(t)@.len() ==> #[trigger] old(t)@[j].1 <= n,
        n < usize::MAX,
    ensures
        tally_view(final(t)@) == ({
            let tv = tally_view(old(t)@);
            let i = tally_find(tv, k@, 0);
            if i < tv.len() {
                tv.update(i, (k@, tv[i].1 + 1))
            } else {
                tv.push((k@, 1))
            }
        }),
{
    let ghost tv = tally_view(t@);
    let mut i: usize = 0;
    while i < t.len()
        invariant
            i <= t.len(),
            t@ == old(t)@,
            n < usize::MAX,
            forall|j: int| 0 <= j < old(t)@.len() ==> #[trigger] old(t)@[j].1 <= n,
            tv == tally_view(t@),
            tally_find(tv, k@, 0) == tally_find(tv, k@, i as int),
        decreases t.len() - i,
    {
        if str_eq(t[i].0.as_str(), k) {
            let c = t[i].1;
            assert(c <= n);
            let name = t[i].0.clone();
            t.set(i, (name, c + 1));
            assert(tally_view(t@) =~= tv.update(i as int, (k@, tv[i as int].1 + 1)));
            return;
        }
        i = i + 1;
    }
    t.push((String::from_str(k), 1));
    assert(tally_view(t@) =~= tv.push((k@, 1)));
}

pub open spec fn node_labels(nodes: Seq<(u64, NodeRecordV)>) -> Seq<Seq<char>> {
    nodes.map_values(|n: (u64, NodeRecordV)| spec_kind_name(n.1.kind))
}

pub open spec fn edge_names(edges: Seq<(u64, u64, u8)>) -> Seq<Seq<char>> {
    edges.map_values(|e: (u64, u64, u8)| schema_edge_name(e.2))
}

/// Node counts per label, labels in order of first appearance.
pub fn label_counts(g: &GraphSnapshot) -> (r: Vec<(String, usize)>)
    ensures
        tally_view(r@) == tally(node_labels(g@.nodes)),
{
    let ghost keys = node_labels(g@.nodes);
    let mut t: Vec<(String, usize)> = Vec::new();
    let mut i: usize = 0;
    assert(keys.subrange(0, 0) =~= Seq::<Seq<char>>::empty());
    assert(tally_view(t@) =~= Seq::<(Seq<char>, int)>::empty());
    while i < g.nodes.len()
        invariant
            i <= g.nodes.len(),
            keys == node_labels(g@.nodes),
            keys.len() == g.nodes@.len(),
            tally_view(t@) == tally(keys.subrange(0, i as int)),
        decreases g.nodes.len() - i,
    {
        let ghost sub = keys.subrange(0, (i + 1) as int);
        assert(sub.drop_last() =~= keys.subrange(0, i as int));
        proof {
            tally_bounds(keys.subrange(0, i as int));
            assert forall|j: int| 0 <= j < t@.len() implies #[trigger] t@[j].1 <= i by {
                assert(tally_view(t@)[j].1 == t@[j].1);
            }
        }
        tally_add(&mut t, kind_name(g.nodes[i].1.kind), Ghost(i as int));
        i = i + 1;
    }
    assert(keys.subrange(0, keys.len() as int) =~= keys);
    t
}

/// Edge counts per type name, names in order of first appearance.
pub fn edge_type_counts(g: &GraphSnapshot) -> (r: Vec<(String, usize)>)
    ensures
        tally_view(r@) == tally(edge_names(g@.edges)),
{
    let ghost keys = edge_names(g@.edges);
    let mut t: Vec<(String, usize)> = Vec::new();
    let mut i: usize = 0;
    assert(keys.subrange(0, 0) =~= Seq::<Seq<char>>::empty());
    assert(tally_view(t@) =~= Seq::<(Seq<char>, int)>::empty());
    while i < g.edges.len()
        invariant
            i <= g.edges.len(),
            keys == edge_names(g@.edges),
            keys.len() == g.edges@.len(),
            tally_view(t@) == tally(keys.subrange(0, i as int)),
        decreases g.edges.len() - i,
    {
        let ghost sub = keys.subrange(0, (i + 1) as int);
        assert(sub.drop_last() =~= keys.subrange(0, i as int));
        proof {
            tally_bounds(keys.subrange(0, i as int));
            assert forall|j: int| 0 <= j < t@.len() implies #[trigger] t@[j].1 <= i by {
                assert(tally_view(t@)[j].1 == t@[j].1);
            }
        }
        let name = if g.edges[i].2 == 0 { "CALLS" } else { "ROUTES" };
        tally_add(&mut t, name, Ghost(i as int));
        i = i + 1;
    }
    assert(keys.subrange(0, keys.len() as int) =~= keys);
    t
}

/// How many records satisfy `p`.
pub open spec fn count_nodes(nodes: Seq<(u64, NodeRecordV)>, p: spec_fn(NodeKind) -> bool) -> int
    decreases nodes.len(),
{
    if nodes.len() == 0 {
        0
    } else {
        count_nodes(nodes.drop_last(), p) + if p(nodes.last().1.kind) { 1int } else { 0int }
    }
}

pub open spec fn is_function_kind() -> spec_fn(NodeKind) -> bool {
    |k: NodeKind| k == NodeKind::Function || k == NodeKind::Method
}

pub open spec fn is_route_kind() -> spec_fn(NodeKind) -> bool {
    |k: NodeKind| k == NodeKind::Route
}

pub open spec fn is_file_kind() -> spec_fn(NodeKind) -> bool {
    |k: NodeKind| k == NodeKind::File
}

/// The extension of a path's last component: the text after its last `.`,
/// unless that `.` starts the name (or the name is `..`).
pub open spec fn path_extension(p: Seq<char>) -> Option<Seq<char>> {
    let name = after_last(p, "/"@);
    let k = crate::text::last_occurrence(name, "."@, name.len() - 1);
    if name == ".."@ || k <= 0 {
        None
    } else {
        Some(name.subrange(k + 1, name.len() as int))
    }
}

/// Distinct extensions of the indexed files, in order of first appearance.
pub open spec fn extensions(paths: Seq<Seq<char>>) -> Seq<Seq<char>>
    decreases paths.len(),
{
    if paths.len() == 0 {
        Seq::empty()
    } else {
        let prev = extensions(paths.drop_last());
        match path_extension(paths.last()) {
            Some(e) => if prev.contains(e) {
                prev
            } else {
                prev.push(e)
            },
            None => prev,
        }
    }
}

/// The summary `get_architecture` reports.
#[derive(Debug)]
pub struct ArchitectureSummary {
    pub total_nodes: usize,
    pub total_edges: usize,
    pub functions: usize,
    pub routes: usize,
    pub file_count: usize,
    pub languages: Vec<String>,
}

fn count_kind_exec(g: &GraphSnapshot, which: u8) -> (r: usize)
    requires
        which < 3,
    ensures
        r == count_nodes(
            g@.nodes,
            if which == 0 {
                is_function_kind()
            } else if which == 1 {
                is_route_kind()
            } else {
                is_file_kind()
            },
        ),
{
    let ghost pred = if which == 0 {
        is_function_kind()
    } else if which == 1 {
        is_route_kind()
    } else {
        is_file_kind()
    };
    let ghost nv = g@.nodes;
    let mut c: usize = 0;
    let mut i: usize = 0;
    assert(nv.subrange(0, 0) =~= Seq::<(u64, NodeRecordV)>::empty());
    while i < g.nodes.len()
        invariant
            i <= g.nodes.len(),
            nv == g@.nodes,
            nv.len() == g.nodes@.len(),
            c <= i,
            c == count_nodes(nv.subrange(0, i as int), pred),
            pred == if which == 0 {
                is_function_kind()
            } else if which == 1 {
                is_route_kind()
            } else {
                is_file_kind()
            },
        decreases g.nodes.len() - i,
    {
        let ghost sub = nv.subrange(0, (i + 1) as int);
        assert(sub.drop_last() =~= nv.subrange(0, i as int));
        let k = g.nodes[i].1.kind;
        let hit = if which == 0 {
            k == NodeKind::Function || k == NodeKind::Method
        } else if which == 1 {
            k == NodeKind::Route
        } else {
            k == NodeKind::File
        };
        if hit {
            c = c + 1;
        }
        i = i + 1;
    }
    assert(nv.subrange(0, nv.len() as int) =~= nv);
    c
}

pub(crate) fn extension_of(p: &str) -> (r: Option<String>)
    ensures
        match r {
            Some(e) => path_extension(p@) == Some(e@),
            None => path_extension(p@) is None,
        },
{
    let name = str_after_last(p, "/");
    let chars = chars_of(name.as_str());
    let dot = chars_of(".");
    proof {
        reveal_strlit(".");
    }
    assert(dot@.len() == 1);
    let cl = chars.len();
    if str_eq(name.as_str(), "..") {
        return None;
    }
    match crate::text::rfind_chars(&chars, &dot) {
        Some(k) => {
            if k == 0 {
                return None;
            }
            let mut out = String::new();
            let mut i: usize = k + 1;
            while i < chars.len()
                invariant
                    k + 1 <= i <= chars@.len(),
                    out@ == chars@.subrange(k + 1, i as int),
                decreases chars.len() - i,
            {
                out.push(chars[i]);
                i = i + 1;
                assert(out@ =~= chars@.subrange(k + 1, i as int));
            }
            Some(out)
        },
        None => None,
    }
}

fn contains_text(v: &Vec<String>, s: &String) -> (b: bool)
    ensures
        b == v@.map_values(|x: String| x@).contains(s@),
{
    let mut i: usize = 0;
    while i < v.len()
        invariant
            i <= v.len(),
            forall|k: int| 0 <= k < i ==> v@[k]@ != s@,
        decreases v.len() - i,
    {
        if str_eq(v[i].as_str(), s.as_str()) {
            assert(v@.map_values(|x: String| x@)[i as int] == s@);
            return true;
        }
        i = i + 1;
    }
    false
}

/// The architecture overview: node, edge, function, route and file counts,
/// and the extensions of the indexed file paths.
pub fn architecture(g: &GraphSnapshot, file_paths: &Vec<String>) -> (r: ArchitectureSummary)
    ensures
        r.total_nodes == g@.nodes.len(),
        r.total_edges == g@.edges.len(),
        r.functions == count_nodes(g@.nodes, is_function_kind()),
        r.routes == count_nodes(g@.nodes, is_route_kind()),
        r.file_count == count_nodes(g@.nodes, is_file_kind()),
        r.languages@.map_values(|x: String| x@) == extensions(file_paths@.map_values(|x: String| x@)),
{
    let ghost pv = file_paths@.map_values(|x: String| x@);
    let mut langs: Vec<String> = Vec::new();
    let mut i: usize = 0;
    assert(pv.subrange(0, 0) =~= Seq::<Seq<char>>::empty());
    assert(langs@.map_values(|x: String| x@) =~= Seq::<Seq<char>>::empty());
    while i < file_paths.len()
        invariant
            i <= file_paths.len(),
            pv == file_paths@.map_values(|x: String| x@),
            pv.len() == file_paths@.len(),
            langs@.map_values(|x: String| x@) == extensions(pv.subrange(0, i as int)),
        decreases file_paths.len() - i,
    {
        let ghost sub = pv.subrange(0, (i + 1) as int);
        assert(sub.drop_last() =~= pv.subrange(0, i as int));
        match extension_of(file_paths[i].as_str()) {
            Some(e) => {
                if !contains_text(&langs, &e) {
                    let ghost pre = langs@.map_values(|x: String| x@);
                    let ghost ev = e@;
                    langs.push(e);
                    assert(langs@.map_values(|x: String| x@) =~= pre.push(ev));
                }
            },
            None => {},
        }
        i = i + 1;
    }
    assert(pv.subrange(0, pv.len() as int) =~= pv);
    ArchitectureSummary {
        total_nodes: g.nodes.len(),
        total_edges: g.edges.len(),
        functions: count_kind_exec(g, 0),
        routes: count_kind_exec(g, 1),
        file_count: count_kind_exec(g, 2),
        languages: langs,
    }
}

} // verus!
