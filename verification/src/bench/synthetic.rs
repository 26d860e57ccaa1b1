//! The stack-graphs side of the positional F1 bench: ground-truth
//! references rewritten to the positions their definitions start at, the
//! distinct reference positions to resolve, the resolver's answers paired
//! with those positions, and the synthetic index built from them.

use vstd::prelude::*;
use crate::bench::scip_refs::{is_definition, key_eq, range_start, start_of, RefKey};
use crate::bench::stack_graphs::{opt_resolved_view, Resolved, ResolvedV};
use crate::scip::index::{docs_view, occs_view, ScipDocument, ScipDocumentV, ScipOccurrence, ScipOccurrenceV};
use crate::text::{push_i64, spec_i64_text};

verus! {

/// A reference position as values: path, 0-based line and column.
pub type KeyV = (Seq<char>, i32, i32);

pub open spec fn key_view(k: RefKey) -> KeyV {
    (k.path@, k.line, k.col)
}

pub open spec fn keys_view(v: Seq<RefKey>) -> Seq<KeyV> {
    v.map_values(|k: RefKey| key_view(k))
}

/// The symbol that stands for "resolves to the definition at `path:line:col`".
pub open spec fn resolved_symbol(path: Seq<char>, line: i32, col: i32) -> Seq<char> {
    "sg-resolved . . . `"@ + path + "`:"@ + spec_i64_text(line as i64) + ":"@ + spec_i64_text(col as i64)
}

fn resolved_symbol_text(path: &str, line: i32, col: i32) -> (s: String)
    ensures
        s@ == resolved_symbol(path@, line, col),
{
    let mut s = String::from_str("sg-resolved . . . `");
    s.append(path);
    s.append("`:");
    push_i64(&mut s, line as i64);
    s.append(":");
    push_i64(&mut s, col as i64);
    s
}

/// Where an occurrence starts, in the document at `path`.
pub open spec fn key_of(path: Seq<char>, o: ScipOccurrenceV) -> KeyV {
    (path, range_start(o.range).0, range_start(o.range).1)
}

/// The definitions of one document (definition role, non-empty symbol),
/// each with the position it starts at, in order.
pub open spec fn doc_def_table(path: Seq<char>, occs: Seq<ScipOccurrenceV>) -> Seq<(Seq<char>, KeyV)>
    decreases occs.len(),
{
    if occs.len() == 0 {
        Seq::empty()
    } else {
        let prev = doc_def_table(path, occs.drop_last());
        let o = occs.last();
        if is_definition(o.roles) && o.symbol.len() > 0 {
            prev.push((o.symbol, key_of(path, o)))
        } else {
            prev
        }
    }
}

/// The definitions of all documents, in order.
pub open spec fn def_table(docs: Seq<ScipDocumentV>) -> Seq<(Seq<char>, KeyV)>
    decreases docs.len(),
{
    if docs.len() == 0 {
        Seq::empty()
    } else {
        def_table(docs.drop_last()) + doc_def_table(docs.last().0, docs.last().1)
    }
}

/// Where the first definition of `sym` at or after entry `i` starts.
pub open spec fn first_def_from(t: Seq<(Seq<char>, KeyV)>, sym: Seq<char>, i: int) -> Option<KeyV>
    decreases t.len() - i,
{
    if i < 0 || i >= t.len() {
        None
    } else if t[i].0 == sym {
        Some(t[i].1)
    } else {
        first_def_from(t, sym, i + 1)
    }
}

/// Where the first definition of `sym` starts.
pub open spec fn first_def(t: Seq<(Seq<char>, KeyV)>, sym: Seq<char>) -> Option<KeyV> {
    first_def_from(t, sym, 0)
}

pub open spec fn defs_table_view(v: Seq<(String, (String, i32, i32))>) -> Seq<(Seq<char>, KeyV)> {
    v.map_values(|e: (String, (String, i32, i32))| (e.0@, (e.1.0@, e.1.1, e.1.2)))
}

fn collect_defs(docs: &Vec<ScipDocument>) -> (r: Vec<(String, (String, i32, i32))>)
    ensures
        defs_table_view(r@) == def_table(docs_view(docs@)),
{
    let ghost dv = docs_view(docs@);
    let mut out: Vec<(String, (String, i32, i32))> = Vec::new();
    let mut d: usize = 0;
    assert(dv.subrange(0, 0) =~= Seq::<ScipDocumentV>::empty());
    assert(defs_table_view(out@) =~= Seq::<(Seq<char>, KeyV)>::empty());
    while d < docs.len()
        invariant
            d <= docs.len(),
            dv == docs_view(docs@),
            defs_table_view(out@) == def_table(dv.subrange(0, d as int)),
        decreases docs.len() - d,
    {
        let ghost dsub = dv.subrange(0, (d + 1) as int);
        assert(dsub.drop_last() =~= dv.subrange(0, d as int));
        let doc = &docs[d];
        let ghost base = defs_table_view(out@);
        let ghost ov = occs_view(doc.occurrences@);
        let mut k: usize = 0;
        assert(ov.subrange(0, 0) =~= Seq::<ScipOccurrenceV>::empty());
        assert(defs_table_view(out@) =~= base + doc_def_table(doc.relative_path@, ov.subrange(0, 0)));
        while k < doc.occurrences.len()
            invariant
                k <= doc.occurrences.len(),
                ov == occs_view(doc.occurrences@),
                defs_table_view(out@) == base + doc_def_table(doc.relative_path@, ov.subrange(0, k as int)),
            decreases doc.occurrences.len() - k,
        {
            let ghost osub = ov.subrange(0, (k + 1) as int);
            assert(osub.drop_last() =~= ov.subrange(0, k as int));
            let occ = &doc.occurrences[k];
            if (occ.symbol_roles & 1i32) != 0 && occ.symbol.unicode_len() > 0 {
                let (line, col) = start_of(&occ.range);
                let e = (occ.symbol.clone(), (doc.relative_path.clone(), line, col));
                let ghost pre = defs_table_view(out@);
                out.push(e);
                assert(defs_table_view(out@) =~= pre.push((occ.symbol@, (doc.relative_path@, line, col))));
            }
            k = k + 1;
        }
        assert(ov.subrange(0, ov.len() as int) =~= ov);
        assert(dv[d as int] == (doc.relative_path@, ov));
        d = d + 1;
    }
    assert(dv.subrange(0, dv.len() as int) =~= dv);
    out
}

fn find_def(t: &Vec<(String, (String, i32, i32))>, sym: &str) -> (r: Option<(String, i32, i32)>)
    ensures
        match r {
            Some(p) => first_def(defs_table_view(t@), sym@) == Some((p.0@, p.1, p.2)),
            None => first_def(defs_table_view(t@), sym@) is None,
        },
{
    let ghost tv = defs_table_view(t@);
    let mut i: usize = 0;
    while i < t.len()
        invariant
            i <= t.len(),
            tv == defs_table_view(t@),
            first_def_from(tv, sym@, 0) == first_def_from(tv, sym@, i as int),
        decreases t.len() - i,
    {
        if crate::text::str_eq(t[i].0.as_str(), sym) {
            return Some((t[i].1.0.clone(), t[i].1.1, t[i].1.2));
        }
        i = i + 1;
    }
    None
}

/// A ground-truth reference rewritten to its definition's position.
pub open spec fn rewritten_occ(pos: KeyV, o: ScipOccurrenceV) -> ScipOccurrenceV {
    ScipOccurrenceV { symbol: resolved_symbol(pos.0, pos.1, pos.2), roles: 0, range: o.range, enclosing: Seq::empty() }
}

/// The references of one document whose symbol is defined in the index,
/// each rewritten to where that definition starts; definitions and
/// references to symbols defined elsewhere are left out.
pub open spec fn rewritten_occs(t: Seq<(Seq<char>, KeyV)>, occs: Seq<ScipOccurrenceV>) -> Seq<ScipOccurrenceV>
    decreases occs.len(),
{
    if occs.len() == 0 {
        Seq::empty()
    } else {
        let prev = rewritten_occs(t, occs.drop_last());
        let o = occs.last();
        if is_definition(o.roles) {
            prev
        } else {
            match first_def(t, o.symbol) {
                Some(pos) => prev.push(rewritten_occ(pos, o)),
                None => prev,
            }
        }
    }
}

/// Every document of the ground truth with its references rewritten.
pub open spec fn rewritten_docs(docs: Seq<ScipDocumentV>) -> Seq<ScipDocumentV> {
    docs.map_values(|d: ScipDocumentV| (d.0, rewritten_occs(def_table(docs), d.1)))
}

/// Rewrites the ground truth so that each reference names the position of
/// its definition, as the synthetic index does; the documents stay, in
/// order, with only the rewritten references.
pub fn rewrite_ground_truth_symbols(gt: &Vec<ScipDocument>) -> (r: Vec<ScipDocument>)
    ensures
        docs_view(r@) == rewritten_docs(docs_view(gt@)),
{
    let ghost dv = docs_view(gt@);
    let defs = collect_defs(gt);
    let ghost t = def_table(dv);
    let mut out: Vec<ScipDocument> = Vec::new();
    let mut d: usize = 0;
    while d < gt.len()
        invariant
            d <= gt.len(),
            dv == docs_view(gt@),
            t == def_table(dv),
            defs_table_view(defs@) == t,
            out@.len() == d,
            forall|j: int| 0 <= j < d ==> (#[trigger] out@[j])@ == (dv[j].0, rewritten_occs(t, dv[j].1)),
        decreases gt.len() - d,
    {
        let doc = &gt[d];
        let ghost ov = occs_view(doc.occurrences@);
        let mut occs: Vec<ScipOccurrence> = Vec::new();
        let mut k: usize = 0;
        assert(ov.subrange(0, 0) =~= Seq::<ScipOccurrenceV>::empty());
        assert(occs_view(occs@) =~= rewritten_occs(t, ov.subrange(0, 0)));
        while k < doc.occurrences.len()
            invariant
                k <= doc.occurrences.len(),
                ov == occs_view(doc.occurrences@),
                defs_table_view(defs@) == t,
                occs_view(occs@) == rewritten_occs(t, ov.subrange(0, k as int)),
            decreases doc.occurrences.len() - k,
        {
            let ghost osub = ov.subrange(0, (k + 1) as int);
            assert(osub.drop_last() =~= ov.subrange(0, k as int));
            let occ = &doc.occurrences[k];
            if (occ.symbol_roles & 1i32) == 0 {
                match find_def(&defs, occ.symbol.as_str()) {
                    Some((p, l, c)) => {
                        let o = ScipOccurrence {
                            symbol: resolved_symbol_text(p.as_str(), l, c),
                            symbol_roles: 0,
                            range: occ.range.clone(),
                            enclosing_range: Vec::new(),
                        };
                        let ghost pre = occs_view(occs@);
                        occs.push(o);
                        assert(occs_view(occs@) =~= pre.push(rewritten_occ((p@, l, c), occ@)));
                    },
                    None => {},
                }
            }
            k = k + 1;
        }
        assert(ov.subrange(0, ov.len() as int) =~= ov);
        let nd = ScipDocument { relative_path: doc.relative_path.clone(), occurrences: occs };
        assert(nd@ == (doc.relative_path@, rewritten_occs(t, ov)));
        let ghost pre = out@;
        out.push(nd);
        proof {
            assert forall|j: int| 0 <= j < d + 1 implies (#[trigger] out@[j])@ == (dv[j].0, rewritten_occs(t, dv[j].1)) by {
                if j < d {
                    assert(out@[j] == pre[j]);
                } else {
                    assert(out@[j] == nd);
                    assert(dv[j] == (doc.relative_path@, ov));
                }
            }
        }
        d = d + 1;
    }
    assert(docs_view(out@) =~= rewritten_docs(dv));
    out
}

/// Where each occurrence of one document starts.
pub open spec fn occ_keys(path: Seq<char>, occs: Seq<ScipOccurrenceV>) -> Seq<KeyV> {
    occs.map_values(|o: ScipOccurrenceV| key_of(path, o))
}

/// Where each occurrence of every document starts, in order.
pub open spec fn all_keys(docs: Seq<ScipDocumentV>) -> Seq<KeyV>
    decreases docs.len(),
{
    if docs.len() == 0 {
        Seq::empty()
    } else {
        all_keys(docs.drop_last()) + occ_keys(docs.last().0, docs.last().1)
    }
}

/// The first occurrence of each element, in order.
pub open spec fn distinct_first(s: Seq<KeyV>) -> Seq<KeyV>
    decreases s.len(),
{
    if s.len() == 0 {
        Seq::empty()
    } else {
        let prev = distinct_first(s.drop_last());
        if prev.contains(s.last()) {
            prev
        } else {
            prev.push(s.last())
        }
    }
}

fn contains_key(v: &Vec<RefKey>, k: &RefKey) -> (b: bool)
    ensures
        b == keys_view(v@).contains(key_view(*k)),
{
    let ghost kv = keys_view(v@);
    let mut i: usize = 0;
    while i < v.len()
        invariant
            i <= v.len(),
            kv == keys_view(v@),
            forall|j: int| 0 <= j < i ==> kv[j] != key_view(*k),
        decreases v.len() - i,
    {
        if key_eq(&v[i], k) {
            assert(kv[i as int] == key_view(*k));
            return true;
        }
        i = i + 1;
    }
    false
}

/// The distinct positions of a (rewritten) index's occurrences, in the
/// order they first occur.
pub fn reference_positions(docs: &Vec<ScipDocument>) -> (r: Vec<RefKey>)
    ensures
        keys_view(r@) == distinct_first(all_keys(docs_view(docs@))),
{
    let ghost dv = docs_view(docs@);
    let mut out: Vec<RefKey> = Vec::new();
    let mut d: usize = 0;
    assert(dv.subrange(0, 0) =~= Seq::<ScipDocumentV>::empty());
    assert(keys_view(out@) =~= distinct_first(all_keys(dv.subrange(0, 0))));
    while d < docs.len()
        invariant
            d <= docs.len(),
            dv == docs_view(docs@),
            keys_view(out@) == distinct_first(all_keys(dv.subrange(0, d as int))),
        decreases docs.len() - d,
    {
        let ghost dsub = dv.subrange(0, (d + 1) as int);
        assert(dsub.drop_last() =~= dv.subrange(0, d as int));
        let doc = &docs[d];
        let ghost before = all_keys(dv.subrange(0, d as int));
        let ghost ov = occs_view(doc.occurrences@);
        let ghost ks = occ_keys(doc.relative_path@, ov);
        assert(dv[d as int] == (doc.relative_path@, ov));
        let mut k: usize = 0;
        assert(before + ks.subrange(0, 0) =~= before);
        while k < doc.occurrences.len()
            invariant
                k <= doc.occurrences.len(),
                ov == occs_view(doc.occurrences@),
                ks == occ_keys(doc.relative_path@, ov),
                keys_view(out@) == distinct_first(before + ks.subrange(0, k as int)),
            decreases doc.occurrences.len() - k,
        {
            let ghost cur = before + ks.subrange(0, (k + 1) as int);
            assert(cur.drop_last() =~= before + ks.subrange(0, k as int));
            let occ = &doc.occurrences[k];
            let (line, col) = start_of(&occ.range);
            let key = RefKey { path: doc.relative_path.clone(), line, col };
            assert(cur.last() == key_view(key));
            if !contains_key(&out, &key) {
                let ghost pre = keys_view(out@);
                out.push(key);
                assert(keys_view(out@) =~= pre.push(cur.last()));
            }
            k = k + 1;
        }
        assert(ks.subrange(0, ks.len() as int) =~= ks);
        assert(all_keys(dsub) == before + ks);
        d = d + 1;
    }
    assert(dv.subrange(0, dv.len() as int) =~= dv);
    out
}

pub open spec fn entries_view(v: Seq<(RefKey, Option<Resolved>)>) -> Seq<(KeyV, Option<ResolvedV>)> {
    v.map_values(|e: (RefKey, Option<Resolved>)| (key_view(e.0), opt_resolved_view(e.1)))
}

/// Each position with the answer the resolver gave for it, or `None`
/// where it gave none (the budget ran out before it was asked).
pub open spec fn paired(positions: Seq<KeyV>, found: Seq<Option<ResolvedV>>) -> Seq<(KeyV, Option<ResolvedV>)> {
    Seq::new(positions.len(), |i: int| (positions[i], if i < found.len() { found[i] } else { None::<ResolvedV> }))
}

/// Positions that the resolver answers per call.
pub const RESOLVE_BATCH_SIZE: usize = 200;

/// What the resolving loop does next.
#[derive(Debug, PartialEq, Eq, Structural)]
pub enum ResolveStep {
    /// Ask the resolver about positions `start..end`.
    Query { start: usize, end: usize },
    /// Stop; `budget_hit` when the wall-time budget ran out first, leaving
    /// the remaining positions unresolved.
    Done { budget_hit: bool },
}

/// The next step of resolving `total` positions in batches, `done` of them
/// answered so far, `elapsed_ns` nanoseconds into a budget of `budget_secs`
/// seconds: stop when all are answered; stop on the budget when it is
/// exceeded before a batch; otherwise the next batch of at most
/// `RESOLVE_BATCH_SIZE` positions.
pub fn resolve_step(done: usize, total: usize, elapsed_ns: u64, budget_secs: u64) -> (r: ResolveStep)
    ensures
        r == (if done >= total {
            ResolveStep::Done { budget_hit: false }
        } else if elapsed_ns > budget_secs * 1_000_000_000 {
            ResolveStep::Done { budget_hit: true }
        } else {
            ResolveStep::Query {
                start: done,
                end: if total - done <= RESOLVE_BATCH_SIZE { total } else { (done + RESOLVE_BATCH_SIZE) as usize },
            }
        }),
{
    if done >= total {
        ResolveStep::Done { budget_hit: false }
    } else if (elapsed_ns as u128) > (budget_secs as u128) * 1_000_000_000u128 {
        ResolveStep::Done { budget_hit: true }
    } else if total - done <= RESOLVE_BATCH_SIZE {
        ResolveStep::Query { start: done, end: total }
    } else {
        ResolveStep::Query { start: done, end: done + RESOLVE_BATCH_SIZE }
    }
}

/// Pairs each position with the answer found for it, in order; positions
/// past the answers get `None`.
pub fn pair_resolutions(positions: &Vec<RefKey>, found: Vec<Option<Resolved>>) -> (r: Vec<(RefKey, Option<Resolved>)>)
    ensures
        entries_view(r@) == paired(keys_view(positions@), found@.map_values(|o: Option<Resolved>| opt_resolved_view(o))),
{
    let ghost fv = found@.map_values(|o: Option<Resolved>| opt_resolved_view(o));
    let ghost want = paired(keys_view(positions@), fv);
    let mut out: Vec<(RefKey, Option<Resolved>)> = Vec::new();
    let mut i: usize = 0;
    while i < positions.len()
        invariant
            i <= positions.len(),
            fv == found@.map_values(|o: Option<Resolved>| opt_resolved_view(o)),
            want == paired(keys_view(positions@), fv),
            entries_view(out@) == want.subrange(0, i as int),
        decreases positions.len() - i,
    {
        let p = &positions[i];
        let key = RefKey { path: p.path.clone(), line: p.line, col: p.col };
        let ans: Option<Resolved> = if i < found.len() {
            match &found[i] {
                Some(r) => Some(Resolved { path: r.path.clone(), line: r.line, col: r.col }),
                None => None,
            }
        } else {
            None
        };
        assert(opt_resolved_view(ans) == want[i as int].1);
        let ghost pre = entries_view(out@);
        out.push((key, ans));
        assert(entries_view(out@) =~= pre.push(want[i as int]));
        assert(want.subrange(0, i + 1) =~= want.subrange(0, i as int).push(want[i as int]));
        i = i + 1;
    }
    assert(want.subrange(0, want.len() as int) =~= want);
    out
}

/// The occurrence the synthetic index holds for a resolved position: a
/// one-column range at the reference, naming the definition's position.
pub open spec fn synth_occ(k: KeyV, r: ResolvedV) -> ScipOccurrenceV {
    ScipOccurrenceV {
        symbol: resolved_symbol(r.0, r.1, r.2),
        roles: 0,
        range: seq![k.1, k.2, (k.2 + 1) as i32],
        enclosing: Seq::empty(),
    }
}

/// The index of the first document at or after `i` whose path is `path`,
/// or -1.
pub open spec fn path_index(docs: Seq<ScipDocumentV>, path: Seq<char>, i: int) -> int
    decreases docs.len() - i,
{
    if i < 0 || i >= docs.len() {
        -1
    } else if docs[i].0 == path {
        i
    } else {
        path_index(docs, path, i + 1)
    }
}

/// The synthetic index: one document per path that has a resolved
/// position, in the order the paths first occur, each holding the
/// occurrences of its resolved positions in order.
pub open spec fn synth_docs(entries: Seq<(KeyV, Option<ResolvedV>)>) -> Seq<ScipDocumentV>
    decreases entries.len(),
{
    if entries.len() == 0 {
        Seq::empty()
    } else {
        let prev = synth_docs(entries.drop_last());
        let (k, res) = entries.last();
        match res {
            None => prev,
            Some(r) => {
                let j = path_index(prev, k.0, 0);
                if j < 0 {
                    prev.push((k.0, seq![synth_occ(k, r)]))
                } else {
                    prev.update(j, (prev[j].0, prev[j].1.push(synth_occ(k, r))))
                }
            },
        }
    }
}

/// The column after each resolved position fits in an `i32`.
pub open spec fn columns_fit(entries: Seq<(KeyV, Option<ResolvedV>)>) -> bool {
    forall|i: int| 0 <= i < entries.len() && (#[trigger] entries[i]).1 is Some ==> entries[i].0.2 < i32::MAX
}

fn find_doc(docs: &Vec<ScipDocument>, path: &str) -> (r: Option<usize>)
    ensures
        match r {
            Some(j) => j < docs@.len() && path_index(docs_view(docs@), path@, 0) == j,
            None => path_index(docs_view(docs@), path@, 0) == -1,
        },
{
    let ghost dv = docs_view(docs@);
    let mut i: usize = 0;
    while i < docs.len()
        invariant
            i <= docs.len(),
            dv == docs_view(docs@),
            path_index(dv, path@, 0) == path_index(dv, path@, i as int),
        decreases docs.len() - i,
    {
        if crate::text::str_eq(docs[i].relative_path.as_str(), path) {
            assert(dv[i as int].0 == docs@[i as int].relative_path@);
            return Some(i);
        }
        assert(dv[i as int].0 == docs@[i as int].relative_path@);
        i = i + 1;
    }
    None
}

/// Builds the synthetic SCIP documents from the resolved positions.
pub fn build_synthetic_index(resolutions: &Vec<(RefKey, Option<Resolved>)>) -> (r: Vec<ScipDocument>)
    requires
        columns_fit(entries_view(resolutions@)),
    ensures
        docs_view(r@) == synth_docs(entries_view(resolutions@)),
{
    let ghost ev = entries_view(resolutions@);
    let mut out: Vec<ScipDocument> = Vec::new();
    let mut i: usize = 0;
    assert(ev.subrange(0, 0) =~= Seq::<(KeyV, Option<ResolvedV>)>::empty());
    assert(docs_view(out@) =~= Seq::<ScipDocumentV>::empty());
    while i < resolutions.len()
        invariant
            i <= resolutions.len(),
            ev == entries_view(resolutions@),
            columns_fit(ev),
            docs_view(out@) == synth_docs(ev.subrange(0, i as int)),
        decreases resolutions.len() - i,
    {
        let ghost sub = ev.subrange(0, (i + 1) as int);
        assert(sub.drop_last() =~= ev.subrange(0, i as int));
        let (key, res) = (&resolutions[i].0, &resolutions[i].1);
        assert(sub.last() == ev[i as int]);
        match res {
            None => {},
            Some(rv) => {
                assert(ev[i as int].1 is Some);
                let occ = ScipOccurrence {
                    symbol: resolved_symbol_text(rv.path.as_str(), rv.line, rv.col),
                    symbol_roles: 0,
                    range: vec![key.line, key.col, key.col + 1],
                    enclosing_range: Vec::new(),
                };
                assert(occ@ == synth_occ(key_view(*key), rv@)) by {
                    assert(occ.range@ =~= seq![key.line, key.col, (key.col + 1) as i32]);
                }
                let ghost pre = docs_view(out@);
                match find_doc(&out, key.path.as_str()) {
                    None => {
                        let nd = ScipDocument { relative_path: key.path.clone(), occurrences: vec![occ] };
                        assert(nd@ == (key.path@, seq![synth_occ(key_view(*key), rv@)])) by {
                            assert(occs_view(nd.occurrences@) =~= seq![occ@]);
                        }
                        out.push(nd);
                        assert(docs_view(out@) =~= pre.push(nd@));
                    },
                    Some(j) => {
                        let mut doc = out.remove(j);
                        let ghost old_occs = occs_view(doc.occurrences@);
                        assert(doc@ == pre[j as int]);
                        doc.occurrences.push(occ);
                        assert(occs_view(doc.occurrences@) =~= old_occs.push(occ@));
                        out.insert(j, doc);
                        assert(docs_view(out@) =~= pre.update(j as int, (pre[j as int].0, pre[j as int].1.push(occ@))));
                    },
                }
            },
        }
        i = i + 1;
    }
    assert(ev.subrange(0, ev.len() as int) =~= ev);
    out
}

/// The position argument of a resolver query: the absolute path with the
/// 1-based line and column.
pub open spec fn query_position_text(abs: Seq<char>, line: i32, col: i32) -> Seq<char> {
    abs + ":"@ + spec_i64_text((line + 1) as i64) + ":"@ + spec_i64_text((col + 1) as i64)
}

/// Renders the position the resolver is asked about.
pub fn query_position(abs: &str, key: &RefKey) -> (s: String)
    requires
        key.line < i32::MAX,
        key.col < i32::MAX,
    ensures
        s@ == query_position_text(abs@, key.line, key.col),
{
    let mut s = String::from_str(abs);
    s.append(":");
    push_i64(&mut s, (key.line + 1) as i64);
    s.append(":");
    push_i64(&mut s, (key.col + 1) as i64);
    s
}

/// The positions handed to the resolver are distinct: no position is
/// queried twice.
pub proof fn reference_positions_are_distinct(docs: Seq<ScipDocumentV>)
    ensures
        forall|i: int, j: int|
            0 <= i < j < distinct_first(all_keys(docs)).len() ==> distinct_first(all_keys(docs))[i]
                != distinct_first(all_keys(docs))[j],
{
    distinct_first_is_distinct(all_keys(docs));
}

proof fn distinct_first_is_distinct(s: Seq<KeyV>)
    ensures
        forall|i: int, j: int| 0 <= i < j < distinct_first(s).len() ==> distinct_first(s)[i] != distinct_first(s)[j],
    decreases s.len(),
{
    if s.len() > 0 {
        distinct_first_is_distinct(s.drop_last());
        let prev = distinct_first(s.drop_last());
        if !prev.contains(s.last()) {
            assert forall|i: int, j: int| 0 <= i < j < distinct_first(s).len() implies distinct_first(s)[i]
                != distinct_first(s)[j] by {
                if j == prev.len() {
                    assert(distinct_first(s)[i] == prev[i]);
                    assert(prev.contains(prev[i]));
                }
            }
        }
    }
}

proof fn path_index_found(docs: Seq<ScipDocumentV>, path: Seq<char>, i: int)
    requires
        0 <= i,
    ensures
        path_index(docs, path, i) == -1 ==> forall|m: int| i <= m < docs.len() ==> (#[trigger] docs[m]).0 != path,
        path_index(docs, path, i) != -1 ==> i <= path_index(docs, path, i) < docs.len()
            && docs[path_index(docs, path, i)].0 == path,
    decreases docs.len() - i,
{
    if i < docs.len() && docs[i].0 != path {
        path_index_found(docs, path, i + 1);
    }
}

/// The synthetic index holds one document per path: no two of its
/// documents share a path.
pub proof fn synthetic_documents_have_distinct_paths(entries: Seq<(KeyV, Option<ResolvedV>)>)
    ensures
        forall|i: int, j: int|
            0 <= i < j < synth_docs(entries).len() ==> synth_docs(entries)[i].0 != synth_docs(entries)[j].0,
    decreases entries.len(),
{
    if entries.len() > 0 {
        synthetic_documents_have_distinct_paths(entries.drop_last());
        let prev = synth_docs(entries.drop_last());
        let (k, res) = entries.last();
        if let Some(r) = res {
            path_index_found(prev, k.0, 0);
            let d = synth_docs(entries);
            assert forall|i: int, j: int| 0 <= i < j < d.len() implies d[i].0 != d[j].0 by {
                if j < prev.len() {
                    assert(d[i].0 == prev[i].0);
                    assert(d[j].0 == prev[j].0);
                } else {
                    assert(d[i].0 == prev[i].0);
                }
            }
        }
    }
}

} // verus!
