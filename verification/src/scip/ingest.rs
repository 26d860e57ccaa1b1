//! Matching of SCIP reference occurrences to graph nodes.
//!
//! The node snapshot indexes node ids by FQN (full and last segment) and
//! nodes by file, sorted by start ascending and end descending. For each
//! non-definition occurrence, the caller is the smallest node whose byte
//! range holds the occurrence start, and the callee is the first node whose
//! FQN is the bare identifier of the symbol's last descriptor. Each matched
//! pair that is no self-loop becomes a SCIP edge.

use vstd::prelude::*;
use crate::bench::scip_refs::{is_definition, range_start, scip_symbol_tail, spec_symbol_tail};
use crate::cypher::executor::{insert_ordered, insert_ordered_at};
use crate::multimap::{StrMultiMap, values_at};
use crate::scip::index::{ScipDocument, ScipDocumentV, ScipOccurrenceV, docs_view};
use crate::store::{NodeRecord, NodeRecordV};
use crate::text::{after_last, chars_of, chars_slice, has_prefix, rfind_chars, str_starts_with, string_from_chars};
use crate::text::last_occurrence;

verus! {

/// The short name a node is also filed under: what follows the last `::`
/// when the FQN has one, else what follows the last `.`, else the whole FQN.
pub open spec fn spec_fqn_tail(f: Seq<char>) -> Seq<char> {
    let k = last_occurrence(f, "::"@, f.len() - 2);
    let d = last_occurrence(f, "."@, f.len() - 1);
    if k >= 0 {
        f.subrange(k + 2, f.len() as int)
    } else if d >= 0 {
        f.subrange(d + 1, f.len() as int)
    } else {
        f
    }
}

/// The short name of an FQN, stripping the namespace separators pass 2
/// produces: after the last `::` if any, else after the last `.`.
pub fn fqn_tail(fqn: &str) -> (r: String)
    ensures
        r@ == spec_fqn_tail(fqn@),
{
    proof {
        reveal_strlit("::");
        reveal_strlit(".");
    }
    let cs = chars_of(fqn);
    let n = cs.len();
    let sep = chars_of("::");
    let dot = chars_of(".");
    assert(sep@.len() == 2);
    assert(dot@.len() == 1);
    let start: usize = match rfind_chars(&cs, &sep) {
        Some(k) => k + 2,
        None => match rfind_chars(&cs, &dot) {
            Some(d) => d + 1,
            None => 0,
        },
    };
    let rest = chars_slice(&cs, start, n);
    proof {
        if start == 0 {
            assert(cs@.subrange(0, n as int) =~= cs@);
        }
    }
    string_from_chars(rest.as_slice())
}

/// A node's id and byte range within its file.
#[derive(Debug, Clone, Copy, PartialEq, Eq, Structural)]
pub struct FileNode {
    pub id: u64,
    pub start: u32,
    pub end: u32,
}

/// `a` sorts after `b`: it starts later, or starts at the same byte and
/// ends earlier (start ascending, end descending).
pub open spec fn node_after() -> spec_fn(FileNode, FileNode) -> bool {
    |a: FileNode, b: FileNode| a.start > b.start || (a.start == b.start && a.end < b.end)
}

/// A snapshot entry as values: file, node id, node record.
pub type NodeEntryV = (Seq<char>, u64, NodeRecordV);

pub open spec fn entries_view(v: Seq<(String, u64, NodeRecord)>) -> Seq<NodeEntryV> {
    v.map_values(|e: (String, u64, NodeRecord)| (e.0@, e.1, e.2@))
}

/// Node ids by FQN: each node is filed under the last segment of its FQN
/// and under its full FQN, in entry order.
pub open spec fn fqn_index(es: Seq<NodeEntryV>) -> Map<Seq<char>, Seq<u64>>
    decreases es.len(),
{
    if es.len() == 0 {
        Map::empty()
    } else {
        let m = fqn_index(es.drop_last());
        let e = es.last();
        let t = spec_fqn_tail(e.2.fqn);
        let m1 = m.insert(t, values_at(m, t).push(e.1));
        m1.insert(e.2.fqn, values_at(m1, e.2.fqn).push(e.1))
    }
}

/// Nodes by file, each file's nodes stably sorted by `node_after`.
pub open spec fn range_index(es: Seq<NodeEntryV>) -> Map<Seq<char>, Seq<FileNode>>
    decreases es.len(),
{
    if es.len() == 0 {
        Map::empty()
    } else {
        let m = range_index(es.drop_last());
        let e = es.last();
        let n = FileNode { id: e.1, start: e.2.byte_start, end: e.2.byte_end };
        m.insert(e.0, insert_ordered(values_at(m, e.0), n, node_after()))
    }
}

/// In-memory snapshot of the node tables, taken once before ingest.
pub struct NodeSnapshot {
    by_fqn: StrMultiMap<u64>,
    by_range: StrMultiMap<FileNode>,
}

impl NodeSnapshot {
    pub closed spec fn wf(&self) -> bool {
        self.by_fqn.wf() && self.by_range.wf()
    }

    /// Node ids by FQN or FQN tail.
    pub closed spec fn fqn_ids(&self) -> Map<Seq<char>, Seq<u64>> {
        self.by_fqn@
    }

    /// Nodes by file.
    pub closed spec fn file_nodes(&self) -> Map<Seq<char>, Seq<FileNode>> {
        self.by_range@
    }

    /// The FQN index itself.
    pub fn fqn_map(&self) -> (r: &StrMultiMap<u64>)
        requires
            self.wf(),
        ensures
            r.wf(),
            r@ == self.fqn_ids(),
    {
        &self.by_fqn
    }

    /// The nodes of `file`, if it has any.
    pub fn nodes_of(&self, file: &str) -> (r: Option<&Vec<FileNode>>)
        requires
            self.wf(),
        ensures
            match r {
                Some(v) => self.file_nodes().contains_key(file@) && v@ == self.file_nodes()[file@],
                None => !self.file_nodes().contains_key(file@),
            },
    {
        self.by_range.get(file)
    }
}

/// Inserts `x` after every node it does not sort before.
fn insert_sorted(v: &mut Vec<FileNode>, x: FileNode)
    ensures
        final(v)@ == insert_ordered(old(v)@, x, node_after()),
{
    let ghost s = v@;
    let mut j: usize = v.len();
    while j > 0 && (v[j - 1].start > x.start || (v[j - 1].start == x.start && v[j - 1].end < x.end))
        invariant
            j <= v@.len(),
            v@ == s,
            forall|k: int| j <= k < s.len() ==> (node_after())(#[trigger] s[k], x),
        decreases j,
    {
        j = j - 1;
    }
    proof {
        insert_ordered_at(s, x, node_after(), j as int);
    }
    v.insert(j, x);
}

/// Builds the snapshot from `(file, id, record)` entries, in table order.
pub fn snapshot_indexes(entries: &Vec<(String, u64, NodeRecord)>) -> (snap: NodeSnapshot)
    ensures
        snap.wf(),
        snap.fqn_ids() == fqn_index(entries_view(entries@)),
        snap.file_nodes() == range_index(entries_view(entries@)),
{
    let ghost ev = entries_view(entries@);
    let mut by_fqn: StrMultiMap<u64> = StrMultiMap::new();
    let mut by_range: StrMultiMap<FileNode> = StrMultiMap::new();
    let mut i: usize = 0;
    assert(ev.subrange(0, 0) =~= Seq::<NodeEntryV>::empty());
    while i < entries.len()
        invariant
            i <= entries@.len(),
            ev == entries_view(entries@),
            by_fqn.wf(),
            by_range.wf(),
            by_fqn@ == fqn_index(ev.subrange(0, i as int)),
            by_range@ == range_index(ev.subrange(0, i as int)),
        decreases entries.len() - i,
    {
        let file = &entries[i].0;
        let id = entries[i].1;
        let rec = &entries[i].2;
        let ghost pre = ev.subrange(0, (i + 1) as int);
        assert(pre.drop_last() =~= ev.subrange(0, i as int));
        assert(pre.last() == ev[i as int]);
        let node = FileNode { id, start: rec.byte_start, end: rec.byte_end };
        let mut bucket = by_range.take(file.as_str());
        insert_sorted(&mut bucket, node);
        by_range.put(file.as_str(), bucket);
        let tail = fqn_tail(rec.fqn.as_str());
        by_fqn.push(tail.as_str(), id);
        by_fqn.push(rec.fqn.as_str(), id);
        proof {
            let m = range_index(ev.subrange(0, i as int));
            assert(by_range@ =~= m.insert(file@, insert_ordered(values_at(m, file@), node, node_after())));
        }
        i = i + 1;
    }
    assert(ev.subrange(0, ev.len() as int) =~= ev);
    NodeSnapshot { by_fqn, by_range }
}

/// The key a symbol is looked up by: the bare identifier of its last
/// descriptor (`…/Flask#run().` → `run`). `None` for `local` symbols,
/// symbols without descriptors, and empty identifiers.
pub open spec fn callee_key(sym: Seq<char>) -> Option<Seq<char>> {
    let t = spec_symbol_tail(sym);
    if t.len() == 0 {
        None
    } else {
        Some(t)
    }
}

/// The callee of a symbol: the first id filed under its bare identifier.
pub open spec fn spec_lookup_callee(m: Map<Seq<char>, Seq<u64>>, sym: Seq<char>) -> Option<u64> {
    match callee_key(sym) {
        None => None,
        Some(k) => if m.contains_key(k) && m[k].len() > 0 {
            Some(m[k][0])
        } else {
            None
        },
    }
}

/// Looks up the callee node of a SCIP symbol in an FQN index.
pub fn lookup_callee(by_fqn: &StrMultiMap<u64>, sym: &str) -> (r: Option<u64>)
    requires
        by_fqn.wf(),
    ensures
        r == spec_lookup_callee(by_fqn@, sym@),
{
    let key = scip_symbol_tail(sym);
    if key.unicode_len() == 0 {
        return None;
    }
    match by_fqn.get(key.as_str()) {
        Some(ids) => {
            if ids.len() > 0 {
                Some(ids[0])
            } else {
                None
            }
        },
        None => None,
    }
}

/// `n`'s byte range holds `b`.
pub open spec fn holds(n: FileNode, b: u32) -> bool {
    n.start <= b && b < n.end
}

pub open spec fn width(n: FileNode) -> int {
    n.end - n.start
}

/// Index of the narrowest node holding `b`; the earliest among equals.
pub open spec fn best_enclosing(ns: Seq<FileNode>, b: u32) -> Option<int>
    decreases ns.len(),
{
    if ns.len() == 0 {
        None
    } else {
        let prev = best_enclosing(ns.drop_last(), b);
        let k = ns.len() - 1;
        if holds(ns[k], b) {
            match prev {
                None => Some(k),
                Some(p) => if width(ns[k]) < width(ns[p]) {
                    Some(k)
                } else {
                    Some(p)
                },
            }
        } else {
            prev
        }
    }
}

/// The narrowest node holding `b` holds it, and no node holding `b` is
/// narrower; of equally narrow nodes it is the first, being strictly
/// narrower than every node before it that holds `b`. When none is found,
/// no node holds `b`.
pub proof fn best_enclosing_is_narrowest(ns: Seq<FileNode>, b: u32)
    ensures
        match best_enclosing(ns, b) {
            Some(i) => 0 <= i < ns.len() && holds(ns[i], b) && (forall|j: int|
                0 <= j < ns.len() && #[trigger] holds(ns[j], b) ==> width(ns[i]) <= width(ns[j])) && (forall|j: int|
                0 <= j < i && #[trigger] holds(ns[j], b) ==> width(ns[i]) < width(ns[j])),
            None => forall|j: int| 0 <= j < ns.len() ==> !#[trigger] holds(ns[j], b),
        },
    decreases ns.len(),
{
    if ns.len() > 0 {
        let d = ns.drop_last();
        let k = ns.len() - 1;
        best_enclosing_is_narrowest(d, b);
        assert forall|j: int| 0 <= j < d.len() implies #[trigger] d[j] == ns[j] by {}
        match best_enclosing(ns, b) {
            Some(i) => {
                assert forall|j: int| 0 <= j < ns.len() && #[trigger] holds(ns[j], b) implies width(ns[i]) <= width(
                    ns[j],
                ) by {
                    if j < k {
                        assert(holds(d[j], b));
                    }
                }
                assert forall|j: int| 0 <= j < i && #[trigger] holds(ns[j], b) implies width(ns[i]) < width(ns[j]) by {
                    assert(holds(d[j], b));
                }
            },
            None => {
                assert forall|j: int| 0 <= j < ns.len() implies !#[trigger] holds(ns[j], b) by {
                    if j < k {
                        assert(d[j] == ns[j]);
                    }
                }
            },
        }
    }
}

/// The id of the smallest node whose byte range holds `byte` (cut to 32
/// bits, as node ranges are).
pub fn enclosing_node(file_nodes: &Vec<FileNode>, byte: usize) -> (r: Option<u64>)
    ensures
        r == match best_enclosing(file_nodes@, byte as u32) {
            Some(i) => Some(file_nodes@[i].id),
            None => None,
        },
        match r {
            Some(id) => exists|i: int|
                0 <= i < file_nodes@.len() && file_nodes@[i].id == id && holds(file_nodes@[i], byte as u32) && forall|j: int|
                    0 <= j < file_nodes@.len() && #[trigger] holds(file_nodes@[j], byte as u32) ==> width(file_nodes@[i])
                        <= width(file_nodes@[j]),
            None => forall|j: int| 0 <= j < file_nodes@.len() ==> !#[trigger] holds(file_nodes@[j], byte as u32),
        },
{
    let b = byte as u32;
    let mut best: Option<usize> = None;
    let mut i: usize = 0;
    assert(file_nodes@.subrange(0, 0) =~= Seq::<FileNode>::empty());
    while i < file_nodes.len()
        invariant
            i <= file_nodes@.len(),
            b == byte as u32,
            match best {
                Some(p) => best_enclosing(file_nodes@.subrange(0, i as int), b) == Some(p as int),
                None => best_enclosing(file_nodes@.subrange(0, i as int), b) is None,
            },
            best matches Some(p) ==> p < i && holds(file_nodes@[p as int], b),
        decreases file_nodes.len() - i,
    {
        let ghost pre = file_nodes@.subrange(0, (i + 1) as int);
        assert(pre.drop_last() =~= file_nodes@.subrange(0, i as int));
        let n = file_nodes[i];
        if n.start <= b && b < n.end {
            match best {
                None => {
                    best = Some(i);
                },
                Some(p) => {
                    let q = file_nodes[p];
                    if n.end - n.start < q.end - q.start {
                        best = Some(i);
                    }
                },
            }
        }
        i = i + 1;
    }
    assert(file_nodes@.subrange(0, file_nodes@.len() as int) =~= file_nodes@);
    proof {
        best_enclosing_is_narrowest(file_nodes@, b);
    }
    match best {
        Some(p) => Some(file_nodes[p].id),
        None => None,
    }
}

/// Byte offset of each line start: 0, then one past every newline.
pub open spec fn newline_offsets(bytes: Seq<u8>) -> Seq<usize>
    decreases bytes.len(),
{
    if bytes.len() == 0 {
        seq![0usize]
    } else if bytes.last() == 10 {
        newline_offsets(bytes.drop_last()).push(bytes.len() as usize)
    } else {
        newline_offsets(bytes.drop_last())
    }
}

/// The line-start table of a file's contents.
pub fn line_offsets(bytes: &[u8]) -> (r: Vec<usize>)
    ensures
        r@ == newline_offsets(bytes@),
{
    let mut offsets: Vec<usize> = Vec::new();
    offsets.push(0);
    let mut i: usize = 0;
    assert(bytes@.subrange(0, 0) =~= Seq::<u8>::empty());
    while i < bytes.len()
        invariant
            i <= bytes@.len(),
            offsets@ == newline_offsets(bytes@.subrange(0, i as int)),
        decreases bytes.len() - i,
    {
        let ghost pre = bytes@.subrange(0, (i + 1) as int);
        assert(pre.drop_last() =~= bytes@.subrange(0, i as int));
        if bytes[i] == 10u8 {
            offsets.push(i + 1);
        }
        i = i + 1;
    }
    assert(bytes@.subrange(0, bytes@.len() as int) =~= bytes@);
    offsets
}

/// Absolute byte of (0-based line, 0-based column); `None` for a negative
/// line or column, a line past the table, or a column that reaches the
/// start of the next line (past the line's bytes). The table holds no end
/// for the last line, so there any column is taken.
pub open spec fn spec_line_col_to_byte(offsets: Seq<usize>, line: i32, col: i32) -> Option<int> {
    if line < 0 || col < 0 || line >= offsets.len() {
        None
    } else if line + 1 < offsets.len() && offsets[line as int] + col >= offsets[line + 1] {
        None
    } else {
        Some(offsets[line as int] + col)
    }
}

/// Line starts that leave room for any column.
pub open spec fn offsets_fit(offsets: Seq<usize>) -> bool {
    forall|i: int| 0 <= i < offsets.len() ==> #[trigger] offsets[i] + i32::MAX <= usize::MAX
}

/// Converts a 0-based (line, column) to an absolute byte offset.
pub fn line_col_to_byte(line_offsets: &Vec<usize>, line: i32, col: i32) -> (r: Option<usize>)
    requires
        offsets_fit(line_offsets@),
    ensures
        match r {
            Some(b) => spec_line_col_to_byte(line_offsets@, line, col) == Some(b as int),
            None => spec_line_col_to_byte(line_offsets@, line, col) is None,
        },
{
    if line < 0 || col < 0 {
        return None;
    }
    let l = line as usize;
    let c = col as usize;
    if l >= line_offsets.len() {
        return None;
    }
    let start = line_offsets[l];
    if l + 1 < line_offsets.len() && start + c >= line_offsets[l + 1] {
        return None;
    }
    Some(start + c)
}

/// What becomes of one occurrence.
pub enum OccFate {
    /// A definition, or no symbol: not counted.
    Ignored,
    /// Counted, but no caller or callee was found.
    Unmatched,
    /// Counted; caller and callee are the same node.
    SelfLoop,
    /// Counted; an edge from caller to callee.
    Edge(u64, u64),
}

/// The fate of occurrence `o` of a document whose nodes are `nodes` and
/// whose line table is `table` (`None`: the source could not be read).
pub open spec fn occ_fate(
    fqn: Map<Seq<char>, Seq<u64>>,
    nodes: Seq<FileNode>,
    table: Option<Seq<usize>>,
    o: ScipOccurrenceV,
) -> OccFate {
    if is_definition(o.roles) || o.symbol.len() == 0 {
        OccFate::Ignored
    } else {
        match table {
            None => OccFate::Unmatched,
            Some(t) => match spec_line_col_to_byte(t, range_start(o.range).0, range_start(o.range).1) {
                None => OccFate::Unmatched,
                Some(byte) => match best_enclosing(nodes, byte as u32) {
                    None => OccFate::Unmatched,
                    Some(ci) => match spec_lookup_callee(fqn, o.symbol) {
                        None => OccFate::Unmatched,
                        Some(callee) => if nodes[ci].id == callee {
                            OccFate::SelfLoop
                        } else {
                            OccFate::Edge(nodes[ci].id, callee)
                        },
                    },
                },
            },
        }
    }
}

/// Counts and edges of an ingest: occurrences seen, occurrences without a
/// match, and the edges in the order they were found.
pub struct Tally {
    pub seen: nat,
    pub skipped: nat,
    pub edges: Seq<(u64, u64)>,
}

pub open spec fn tally_add(t: Tally, f: OccFate) -> Tally {
    match f {
        OccFate::Ignored => t,
        OccFate::Unmatched => Tally { seen: t.seen + 1, skipped: t.skipped + 1, edges: t.edges },
        OccFate::SelfLoop => Tally { seen: t.seen + 1, skipped: t.skipped, edges: t.edges },
        OccFate::Edge(a, b) => Tally { seen: t.seen + 1, skipped: t.skipped, edges: t.edges.push((a, b)) },
    }
}

/// `t` after the occurrences `occs` of one document.
pub open spec fn doc_tally(
    t: Tally,
    fqn: Map<Seq<char>, Seq<u64>>,
    nodes: Seq<FileNode>,
    table: Option<Seq<usize>>,
    occs: Seq<ScipOccurrenceV>,
) -> Tally
    decreases occs.len(),
{
    if occs.len() == 0 {
        t
    } else {
        tally_add(doc_tally(t, fqn, nodes, table, occs.drop_last()), occ_fate(fqn, nodes, table, occs.last()))
    }
}

/// The tally of all documents; a document whose file has no nodes in the
/// snapshot is passed over.
pub open spec fn ingest_tally(
    fqn: Map<Seq<char>, Seq<u64>>,
    ranges: Map<Seq<char>, Seq<FileNode>>,
    docs: Seq<ScipDocumentV>,
    tables: Seq<Option<Seq<usize>>>,
) -> Tally
    decreases docs.len(),
{
    if docs.len() == 0 {
        Tally { seen: 0, skipped: 0, edges: Seq::empty() }
    } else {
        let prev = ingest_tally(fqn, ranges, docs.drop_last(), tables);
        let d = docs.last();
        if ranges.contains_key(d.0) {
            doc_tally(prev, fqn, ranges[d.0], tables[docs.len() - 1], d.1)
        } else {
            prev
        }
    }
}

pub open spec fn tables_view(v: Seq<Option<Vec<usize>>>) -> Seq<Option<Seq<usize>>> {
    v.map_values(
        |t: Option<Vec<usize>>|
            match t {
                Some(x) => Some(x@),
                None => None,
            },
    )
}

/// Every line table leaves room for any column.
pub open spec fn tables_fit(v: Seq<Option<Seq<usize>>>) -> bool {
    forall|i: int| 0 <= i < v.len() ==> (#[trigger] v[i] matches Some(t) ==> offsets_fit(t))
}

/// The number of occurrences in all documents.
pub open spec fn total_occurrences(docs: Seq<ScipDocumentV>) -> nat
    decreases docs.len(),
{
    if docs.len() == 0 {
        0
    } else {
        total_occurrences(docs.drop_last()) + docs.last().1.len()
    }
}

/// Counters of one SCIP ingest.
#[derive(Debug, Clone, Default)]
pub struct IngestReport {
    /// Non-definition occurrences seen.
    pub occurrences_seen: u64,
    /// SCIP edges emitted.
    pub edges_emitted: u64,
    /// Occurrences not resolved to a caller-callee pair.
    pub edges_skipped_no_match: u64,
    /// Indexer name, for the summary.
    pub indexer: String,
    pub elapsed_ms: u64,
}

/// The report of an ingest and the `(caller, callee)` edges it found.
pub struct IngestOutcome {
    pub report: IngestReport,
    pub edges: Vec<(u64, u64)>,
}

proof fn tally_bounds(t: Tally, fqn: Map<Seq<char>, Seq<u64>>, nodes: Seq<FileNode>, table: Option<Seq<usize>>, occs: Seq<ScipOccurrenceV>)
    ensures
        doc_tally(t, fqn, nodes, table, occs).seen <= t.seen + occs.len(),
        doc_tally(t, fqn, nodes, table, occs).seen >= t.seen,
        doc_tally(t, fqn, nodes, table, occs).skipped - t.skipped <= doc_tally(t, fqn, nodes, table, occs).seen - t.seen,
        doc_tally(t, fqn, nodes, table, occs).edges.len() - t.edges.len() <= doc_tally(t, fqn, nodes, table, occs).seen - t.seen,
        doc_tally(t, fqn, nodes, table, occs).skipped >= t.skipped,
        doc_tally(t, fqn, nodes, table, occs).edges.len() >= t.edges.len(),
        (doc_tally(t, fqn, nodes, table, occs).skipped - t.skipped) + (doc_tally(t, fqn, nodes, table, occs).edges.len()
            - t.edges.len()) <= doc_tally(t, fqn, nodes, table, occs).seen - t.seen,
    decreases occs.len(),
{
    if occs.len() > 0 {
        tally_bounds(t, fqn, nodes, table, occs.drop_last());
    }
}

proof fn ingest_bounds(
    fqn: Map<Seq<char>, Seq<u64>>,
    ranges: Map<Seq<char>, Seq<FileNode>>,
    docs: Seq<ScipDocumentV>,
    tables: Seq<Option<Seq<usize>>>,
)
    ensures
        ingest_tally(fqn, ranges, docs, tables).seen <= total_occurrences(docs),
        ingest_tally(fqn, ranges, docs, tables).skipped <= ingest_tally(fqn, ranges, docs, tables).seen,
        ingest_tally(fqn, ranges, docs, tables).edges.len() <= ingest_tally(fqn, ranges, docs, tables).seen,
        ingest_tally(fqn, ranges, docs, tables).skipped + ingest_tally(fqn, ranges, docs, tables).edges.len()
            <= ingest_tally(fqn, ranges, docs, tables).seen,
    decreases docs.len(),
{
    if docs.len() > 0 {
        let prev = ingest_tally(fqn, ranges, docs.drop_last(), tables);
        ingest_bounds(fqn, ranges, docs.drop_last(), tables);
        let d = docs.last();
        if ranges.contains_key(d.0) {
            tally_bounds(prev, fqn, ranges[d.0], tables[docs.len() - 1], d.1);
        }
    }
}

/// Resolves the occurrences of `docs` against `snap`, reading positions
/// with `line_tables` (one per document, `None` where the source could not
/// be read), and returns the report and the SCIP edges to write.
pub fn ingest_scip_with_snapshot(
    docs: &Vec<ScipDocument>,
    snap: &NodeSnapshot,
    line_tables: &Vec<Option<Vec<usize>>>,
    indexer_name: &str,
) -> (r: IngestOutcome)
    requires
        snap.wf(),
        line_tables@.len() == docs@.len(),
        tables_fit(tables_view(line_tables@)),
        total_occurrences(docs_view(docs@)) <= u64::MAX,
    ensures
        ({
            let t = ingest_tally(snap.fqn_ids(), snap.file_nodes(), docs_view(docs@), tables_view(line_tables@));
            &&& r.report.occurrences_seen == t.seen
            &&& r.report.edges_skipped_no_match == t.skipped
            &&& r.report.edges_emitted == t.edges.len()
            &&& r.edges@ == t.edges
        }),
        r.report.indexer@ == indexer_name@,
        r.report.elapsed_ms == 0,
{
    let ghost fqn = snap.fqn_ids();
    let ghost ranges = snap.file_nodes();
    let ghost dv = docs_view(docs@);
    let ghost tv = tables_view(line_tables@);
    let by_fqn = snap.fqn_map();
    let mut seen: u64 = 0;
    let mut skipped: u64 = 0;
    let mut emitted: u64 = 0;
    let mut edges: Vec<(u64, u64)> = Vec::new();
    let mut di: usize = 0;
    assert(dv.subrange(0, 0) =~= Seq::<ScipDocumentV>::empty());
    while di < docs.len()
        invariant
            di <= docs@.len(),
            line_tables@.len() == docs@.len(),
            snap.wf(),
            by_fqn.wf(),
            by_fqn@ == fqn,
            fqn == snap.fqn_ids(),
            ranges == snap.file_nodes(),
            dv == docs_view(docs@),
            tv == tables_view(line_tables@),
            tables_fit(tv),
            total_occurrences(dv) <= u64::MAX,
            ({
                let t = ingest_tally(fqn, ranges, dv.subrange(0, di as int), tv);
                &&& seen == t.seen
                &&& skipped == t.skipped
                &&& emitted == t.edges.len()
                &&& edges@ == t.edges
            }),
            total_occurrences(dv.subrange(0, di as int)) <= total_occurrences(dv),
        decreases docs.len() - di,
    {
        let ghost pre = dv.subrange(0, (di + 1) as int);
        assert(pre.drop_last() =~= dv.subrange(0, di as int));
        assert(pre.last() == dv[di as int]);
        let ghost before = ingest_tally(fqn, ranges, dv.subrange(0, di as int), tv);
        proof {
            ingest_bounds(fqn, ranges, dv.subrange(0, di as int), tv);
            total_prefix_monotone(dv, di as int + 1);
        }
        let doc = &docs[di];
        let table = &line_tables[di];
        assert(tv[di as int] == match table {
            Some(x) => Some(x@),
            None => None,
        });
        match snap.nodes_of(doc.relative_path.as_str()) {
            None => {},
            Some(nodes) => {
                let ghost occs = dv[di as int].1;
                assert(occs == crate::scip::index::occs_view(doc.occurrences@));
                let mut oi: usize = 0;
                assert(occs.subrange(0, 0) =~= Seq::<ScipOccurrenceV>::empty());
                while oi < doc.occurrences.len()
                    invariant
                        oi <= doc.occurrences@.len(),
                        occs.len() == doc.occurrences@.len(),
                        occs == crate::scip::index::occs_view(doc.occurrences@),
                        by_fqn.wf(),
                        by_fqn@ == fqn,
                        nodes@ == ranges[dv[di as int].0],
                        tv[di as int] == match table {
                            Some(x) => Some(x@),
                            None => None,
                        },
                        table matches Some(x) ==> offsets_fit(x@),
                        before.seen + occs.len() <= u64::MAX,
                        before.skipped <= before.seen,
                        before.edges.len() <= before.seen,
                        ({
                            let t = doc_tally(before, fqn, nodes@, tv[di as int], occs.subrange(0, oi as int));
                            &&& seen == t.seen
                            &&& skipped == t.skipped
                            &&& emitted == t.edges.len()
                            &&& edges@ == t.edges
                        }),
                    decreases doc.occurrences.len() - oi,
                {
                    let ghost op = occs.subrange(0, (oi + 1) as int);
                    assert(op.drop_last() =~= occs.subrange(0, oi as int));
                    assert(op.last() == occs[oi as int]);
                    proof {
                        tally_bounds(before, fqn, nodes@, tv[di as int], occs.subrange(0, oi as int));
                    }
                    let occ = &doc.occurrences[oi];
                    assert(occs[oi as int] == occ@);
                    oi = oi + 1;
                    if (occ.symbol_roles & 1i32) != 0 || occ.symbol.as_str().unicode_len() == 0 {
                        assert(is_definition(occ.symbol_roles) || occ.symbol@.len() == 0) by {
                            assert(occ.symbol@.len() == occ.symbol@.len());
                        }
                        continue;
                    }
                    assert(!is_definition(occ.symbol_roles) && occ.symbol@.len() != 0);
                    seen = seen + 1;
                    let offsets = match table {
                        Some(x) => x,
                        None => {
                            skipped = skipped + 1;
                            continue;
                        },
                    };
                    let line: i32 = if occ.range.len() > 0 { occ.range[0] } else { 0 };
                    let col: i32 = if occ.range.len() > 1 { occ.range[1] } else { 0 };
                    assert((line, col) == range_start(occ.range@));
                    let byte_off = match line_col_to_byte(offsets, line, col) {
                        Some(b) => b,
                        None => {
                            skipped = skipped + 1;
                            continue;
                        },
                    };
                    let caller = match enclosing_node(nodes, byte_off) {
                        Some(c) => c,
                        None => {
                            skipped = skipped + 1;
                            continue;
                        },
                    };
                    let callee = match lookup_callee(by_fqn, occ.symbol.as_str()) {
                        Some(c) => c,
                        None => {
                            skipped = skipped + 1;
                            continue;
                        },
                    };
                    if caller == callee {
                        continue;
                    }
                    edges.push((caller, callee));
                    emitted = emitted + 1;
                }
                assert(occs.subrange(0, occs.len() as int) =~= occs);
            },
        }
        di = di + 1;
    }
    assert(dv.subrange(0, dv.len() as int) =~= dv);
    IngestOutcome {
        report: IngestReport {
            occurrences_seen: seen,
            edges_emitted: emitted,
            edges_skipped_no_match: skipped,
            indexer: String::from_str(indexer_name),
            elapsed_ms: 0,
        },
        edges,
    }
}

proof fn total_prefix_monotone(docs: Seq<ScipDocumentV>, k: int)
    requires
        0 <= k <= docs.len(),
    ensures
        total_occurrences(docs.subrange(0, k)) <= total_occurrences(docs),
        k > 0 ==> total_occurrences(docs.subrange(0, k - 1)) + docs[k - 1].1.len() == total_occurrences(docs.subrange(0, k)),
    decreases docs.len() - k,
{
    if k > 0 {
        assert(docs.subrange(0, k).drop_last() =~= docs.subrange(0, k - 1));
    }
    if k < docs.len() {
        total_prefix_monotone(docs, k + 1);
        assert(docs.subrange(0, k + 1).drop_last() =~= docs.subrange(0, k));
    } else {
        assert(docs.subrange(0, k) =~= docs);
    }
}

/// No edge of `s` is a self-loop.
pub open spec fn loop_free(s: Seq<(u64, u64)>) -> bool {
    forall|i: int| 0 <= i < s.len() ==> (#[trigger] s[i]).0 != s[i].1
}

proof fn doc_tally_loop_free(
    t: Tally,
    fqn: Map<Seq<char>, Seq<u64>>,
    nodes: Seq<FileNode>,
    table: Option<Seq<usize>>,
    occs: Seq<ScipOccurrenceV>,
)
    requires
        loop_free(t.edges),
    ensures
        loop_free(doc_tally(t, fqn, nodes, table, occs).edges),
    decreases occs.len(),
{
    if occs.len() > 0 {
        doc_tally_loop_free(t, fqn, nodes, table, occs.drop_last());
        let prev = doc_tally(t, fqn, nodes, table, occs.drop_last());
        let f = occ_fate(fqn, nodes, table, occs.last());
        if let OccFate::Edge(a, b) = f {
            assert(a != b);
            assert forall|i: int| 0 <= i < prev.edges.push((a, b)).len() implies (#[trigger] prev.edges.push(
                (a, b),
            )[i]).0 != prev.edges.push((a, b))[i].1 by {
                if i < prev.edges.len() {
                    assert(prev.edges.push((a, b))[i] == prev.edges[i]);
                }
            }
        }
    }
}

/// SCIP ingest never links a node to itself: every emitted edge joins two
/// different nodes.
pub proof fn ingest_edges_are_not_self_loops(
    fqn: Map<Seq<char>, Seq<u64>>,
    ranges: Map<Seq<char>, Seq<FileNode>>,
    docs: Seq<ScipDocumentV>,
    tables: Seq<Option<Seq<usize>>>,
)
    ensures
        loop_free(ingest_tally(fqn, ranges, docs, tables).edges),
    decreases docs.len(),
{
    if docs.len() > 0 {
        ingest_edges_are_not_self_loops(fqn, ranges, docs.drop_last(), tables);
        let prev = ingest_tally(fqn, ranges, docs.drop_last(), tables);
        let d = docs.last();
        if ranges.contains_key(d.0) {
            doc_tally_loop_free(prev, fqn, ranges[d.0], tables[docs.len() - 1], d.1);
        }
    }
}

/// Each file's nodes are in order: start ascending, and among nodes with
/// the same start, end descending.
pub open spec fn nodes_sorted(s: Seq<FileNode>) -> bool {
    forall|i: int, j: int| 0 <= i < j < s.len() ==> !(node_after())(#[trigger] s[i], #[trigger] s[j])
}

proof fn insert_contains(s: Seq<FileNode>, x: FileNode, y: FileNode)
    ensures
        insert_ordered(s, x, node_after()).contains(y) ==> y == x || s.contains(y),
    decreases s.len(),
{
    if s.len() > 0 && (node_after())(s.last(), x) {
        let r = insert_ordered(s.drop_last(), x, node_after());
        insert_contains(s.drop_last(), x, y);
        if r.push(s.last()).contains(y) && y != s.last() {
            let k = choose|k: int| 0 <= k < r.push(s.last()).len() && r.push(s.last())[k] == y;
            assert(r[k] == y);
            if s.drop_last().contains(y) {
                let q = choose|q: int| 0 <= q < s.drop_last().len() && s.drop_last()[q] == y;
                assert(s[q] == y);
            }
        }
        if r.push(s.last()).contains(y) && y == s.last() {
            assert(s[s.len() - 1] == y);
        }
    } else if s.len() > 0 {
        if s.push(x).contains(y) && y != x {
            let k = choose|k: int| 0 <= k < s.push(x).len() && s.push(x)[k] == y;
            assert(s[k] == y);
        }
    }
}

proof fn insert_sorted_keeps_order(s: Seq<FileNode>, x: FileNode)
    requires
        nodes_sorted(s),
    ensures
        nodes_sorted(insert_ordered(s, x, node_after())),
    decreases s.len(),
{
    if s.len() == 0 {
    } else if (node_after())(s.last(), x) {
        let d = s.drop_last();
        assert(nodes_sorted(d)) by {
            assert forall|i: int, j: int| 0 <= i < j < d.len() implies !(node_after())(#[trigger] d[i], #[trigger] d[j]) by {
                assert(d[i] == s[i] && d[j] == s[j]);
            }
        }
        insert_sorted_keeps_order(d, x);
        let r = insert_ordered(d, x, node_after());
        let last = s.last();
        assert forall|i: int, j: int| 0 <= i < j < r.push(last).len() implies !(node_after())(
            #[trigger] r.push(last)[i],
            #[trigger] r.push(last)[j],
        ) by {
            if j == r.len() {
                let y = r[i];
                assert(r.contains(y));
                insert_contains(d, x, y);
                if y != x {
                    let q = choose|q: int| 0 <= q < d.len() && d[q] == y;
                    assert(s[q] == y);
                    assert(!(node_after())(s[q], s[s.len() - 1]));
                }
            } else {
                assert(r.push(last)[i] == r[i] && r.push(last)[j] == r[j]);
            }
        }
    } else {
        assert forall|i: int, j: int| 0 <= i < j < s.push(x).len() implies !(node_after())(
            #[trigger] s.push(x)[i],
            #[trigger] s.push(x)[j],
        ) by {
            if j == s.len() {
                assert(!(node_after())(s[i], s[s.len() - 1]) || i == s.len() - 1);
            } else {
                assert(s.push(x)[i] == s[i] && s.push(x)[j] == s[j]);
            }
        }
    }
}

/// The snapshot lists each file's nodes by start ascending, then end
/// descending, so that enclosing ranges come before the ranges they hold.
pub proof fn snapshot_nodes_are_sorted(es: Seq<NodeEntryV>)
    ensures
        forall|f: Seq<char>| #[trigger] range_index(es).contains_key(f) ==> nodes_sorted(range_index(es)[f]),
    decreases es.len(),
{
    if es.len() > 0 {
        snapshot_nodes_are_sorted(es.drop_last());
        let m = range_index(es.drop_last());
        let e = es.last();
        let n = FileNode { id: e.1, start: e.2.byte_start, end: e.2.byte_end };
        assert(nodes_sorted(values_at(m, e.0)));
        insert_sorted_keeps_order(values_at(m, e.0), n);
    }
}


/// An ingest sees at most every occurrence once, and each occurrence it sees
/// is skipped, written as one edge, or dropped as a self-reference: the
/// skipped and emitted counts together never exceed the seen count.
pub proof fn ingest_counts_are_bounded(
    fqn: Map<Seq<char>, Seq<u64>>,
    ranges: Map<Seq<char>, Seq<FileNode>>,
    docs: Seq<ScipDocumentV>,
    tables: Seq<Option<Seq<usize>>>,
)
    ensures
        ingest_tally(fqn, ranges, docs, tables).seen <= total_occurrences(docs),
        ingest_tally(fqn, ranges, docs, tables).skipped + ingest_tally(fqn, ranges, docs, tables).edges.len()
            <= ingest_tally(fqn, ranges, docs, tables).seen,
{
    ingest_bounds(fqn, ranges, docs, tables);
}

/// A reference occurrence: not a definition, with a symbol.
pub open spec fn is_reference_occ(o: ScipOccurrenceV) -> bool {
    !is_definition(o.roles) && o.symbol.len() > 0
}

/// The number of reference occurrences in `occs`.
pub open spec fn reference_count(occs: Seq<ScipOccurrenceV>) -> nat
    decreases occs.len(),
{
    if occs.len() == 0 {
        0
    } else {
        reference_count(occs.drop_last()) + if is_reference_occ(occs.last()) { 1nat } else { 0nat }
    }
}

/// The reference occurrences of the documents whose file has nodes in the
/// snapshot.
pub open spec fn ingested_references(ranges: Map<Seq<char>, Seq<FileNode>>, docs: Seq<ScipDocumentV>) -> nat
    decreases docs.len(),
{
    if docs.len() == 0 {
        0
    } else {
        ingested_references(ranges, docs.drop_last()) + if ranges.contains_key(docs.last().0) {
            reference_count(docs.last().1)
        } else {
            0nat
        }
    }
}

proof fn doc_tally_seen(t: Tally, fqn: Map<Seq<char>, Seq<u64>>, nodes: Seq<FileNode>, table: Option<Seq<usize>>, occs: Seq<ScipOccurrenceV>)
    ensures
        doc_tally(t, fqn, nodes, table, occs).seen == t.seen + reference_count(occs),
    decreases occs.len(),
{
    if occs.len() > 0 {
        doc_tally_seen(t, fqn, nodes, table, occs.drop_last());
    }
}

/// The occurrences an ingest counts as seen are exactly the reference
/// occurrences (not definitions, with a symbol) of the documents whose file
/// has nodes in the snapshot.
pub proof fn ingest_sees_each_reference_once(
    fqn: Map<Seq<char>, Seq<u64>>,
    ranges: Map<Seq<char>, Seq<FileNode>>,
    docs: Seq<ScipDocumentV>,
    tables: Seq<Option<Seq<usize>>>,
)
    ensures
        ingest_tally(fqn, ranges, docs, tables).seen == ingested_references(ranges, docs),
    decreases docs.len(),
{
    if docs.len() > 0 {
        ingest_sees_each_reference_once(fqn, ranges, docs.drop_last(), tables);
        let d = docs.last();
        if ranges.contains_key(d.0) {
            doc_tally_seen(ingest_tally(fqn, ranges, docs.drop_last(), tables), fqn, ranges[d.0], tables[docs.len() - 1], d.1);
        }
    }
}

} // verus!
