//! SCIP symbols and references: normalisation of symbols, their bare
//! identifiers, reference extraction, caller/callee pairs, and the counts
//! behind the F1 scores.

use vstd::prelude::*;
use crate::cypher::executor::{insert_ordered, insert_ordered_at, sort_ordered};
pub use crate::scip::index::{ScipDocument, ScipOccurrence, ScipOccurrenceV, occs_view};
use crate::text::{chars_of, chars_slice, has_prefix, str_eq, str_starts_with, string_from_chars};

verus! {

/// One reference position: file, 0-based line and column.
#[derive(Debug, Clone, PartialEq, Eq, Hash)]
pub struct RefKey {
    pub path: String,
    pub line: i32,
    pub col: i32,
}

/// A reference with its normalised symbol.
#[derive(Debug, Clone)]
pub struct RefOcc {
    pub key: RefKey,
    pub symbol: String,
}

/// Index of the first `c` at or after `i`, or the length.
pub open spec fn first_index(s: Seq<char>, c: char, i: int) -> int
    decreases s.len() - i,
{
    if i < 0 || i >= s.len() {
        s.len() as int
    } else if s[i] == c {
        i
    } else {
        first_index(s, c, i + 1)
    }
}

/// What follows the `n`-th occurrence of `sep` (`s.splitn(n + 1, sep)`'s
/// last piece), if `sep` occurs `n` times.
pub open spec fn after_n_seps(s: Seq<char>, sep: char, n: nat) -> Option<Seq<char>>
    decreases n,
{
    if n == 0 {
        Some(s)
    } else {
        let j = first_index(s, sep, 0);
        if j < s.len() {
            after_n_seps(s.subrange(j + 1, s.len() as int), sep, (n - 1) as nat)
        } else {
            None
        }
    }
}

proof fn first_index_range(s: Seq<char>, c: char, i: int)
    requires
        0 <= i <= s.len(),
    ensures
        i <= first_index(s, c, i) <= s.len(),
        first_index(s, c, i) < s.len() ==> s[first_index(s, c, i)] == c,
    decreases s.len() - i,
{
    if i < s.len() && s[i] != c {
        first_index_range(s, c, i + 1);
    }
}

pub(crate) fn after_seps(s: &Vec<char>, sep: char, n: usize) -> (r: Option<Vec<char>>)
    ensures
        match r {
            Some(v) => after_n_seps(s@, sep, n as nat) == Some(v@),
            None => after_n_seps(s@, sep, n as nat) is None,
        },
{
    let mut cur: Vec<char> = chars_slice(s, 0, s.len());
    assert(cur@ =~= s@.subrange(0, s@.len() as int));
    assert(s@.subrange(0, s@.len() as int) =~= s@);
    let mut k: usize = n;
    while k > 0
        invariant
            k <= n,
            after_n_seps(s@, sep, n as nat) == after_n_seps(cur@, sep, k as nat),
        decreases k,
    {
        let mut j: usize = 0;
        while j < cur.len() && cur[j] != sep
            invariant
                j <= cur@.len(),
                first_index(cur@, sep, 0) == first_index(cur@, sep, j as int),
            decreases cur.len() - j,
        {
            j = j + 1;
        }
        if j >= cur.len() {
            return None;
        }
        cur = chars_slice(&cur, j + 1, cur.len());
        k = k - 1;
    }
    Some(cur)
}

/// A symbol with its scheme, manager, package and version replaced by
/// `. . . .`; `local` symbols unchanged.
pub open spec fn spec_normalize_symbol(sym: Seq<char>) -> Seq<char> {
    if has_prefix(sym, "local "@) {
        sym
    } else {
        ". . . . "@ + match after_n_seps(sym, ' ', 4) {
            Some(d) => d,
            None => Seq::empty(),
        }
    }
}

/// Normalises a SCIP symbol so that indexers naming the same symbol under
/// different packages agree.
pub fn normalize_symbol(sym: &str) -> (r: String)
    ensures
        r@ == spec_normalize_symbol(sym@),
{
    if str_starts_with(sym, "local ") {
        return String::from_str(sym);
    }
    let cs = chars_of(sym);
    let mut out = String::from_str(". . . . ");
    match after_seps(&cs, ' ', 4) {
        Some(d) => {
            crate::text::push_chars(&mut out, d.as_slice());
        },
        None => {},
    }
    out
}

pub open spec fn is_sigil(c: char) -> bool {
    c == '#' || c == '.' || c == '/' || c == ':' || c == '(' || c == ')'
}

/// `s` without trailing descriptor sigils.
pub open spec fn trim_end_sigils(s: Seq<char>) -> Seq<char>
    decreases s.len(),
{
    if s.len() > 0 && is_sigil(s.last()) {
        trim_end_sigils(s.drop_last())
    } else {
        s
    }
}

/// What follows the last sigil of `s` (all of `s` if none).
pub open spec fn after_last_sigil(s: Seq<char>) -> Seq<char>
    decreases s.len(),
{
    if s.len() == 0 {
        s
    } else if is_sigil(s.last()) {
        Seq::empty()
    } else {
        after_last_sigil(s.drop_last()).push(s.last())
    }
}

/// `s` without leading backticks.
pub open spec fn trim_start_ticks(s: Seq<char>) -> Seq<char>
    decreases s.len(),
{
    if s.len() > 0 && s[0] == '`' {
        trim_start_ticks(s.drop_first())
    } else {
        s
    }
}

/// `s` without trailing backticks.
pub open spec fn trim_end_ticks(s: Seq<char>) -> Seq<char>
    decreases s.len(),
{
    if s.len() > 0 && s.last() == '`' {
        trim_end_ticks(s.drop_last())
    } else {
        s
    }
}

/// The bare identifier of a symbol's last descriptor; empty for `local`
/// symbols and for symbols without descriptors.
pub open spec fn spec_symbol_tail(sym: Seq<char>) -> Seq<char> {
    if has_prefix(sym, "local "@) {
        Seq::empty()
    } else {
        match after_n_seps(sym, ' ', 4) {
            Some(d) => trim_end_ticks(trim_start_ticks(after_last_sigil(trim_end_sigils(d)))),
            None => Seq::empty(),
        }
    }
}

fn is_sigil_char(c: char) -> (b: bool)
    ensures
        b == is_sigil(c),
{
    c == '#' || c == '.' || c == '/' || c == ':' || c == '(' || c == ')'
}

/// The bare identifier of a SCIP symbol (`…/Flask#run().` → `run`).
pub fn scip_symbol_tail(sym: &str) -> (r: String)
    ensures
        r@ == spec_symbol_tail(sym@),
{
    if str_starts_with(sym, "local ") {
        return String::new();
    }
    let cs = chars_of(sym);
    let d = match after_seps(&cs, ' ', 4) {
        Some(d) => d,
        None => { return String::new(); },
    };
    let mut e: usize = d.len();
    assert(d@.subrange(0, d@.len() as int) =~= d@);
    while e > 0 && is_sigil_char(d[e - 1])
        invariant
            e <= d@.len(),
            trim_end_sigils(d@) == trim_end_sigils(d@.subrange(0, e as int)),
        decreases e,
    {
        assert(d@.subrange(0, e as int).drop_last() =~= d@.subrange(0, e - 1));
        e = e - 1;
    }
    let t = chars_slice(&d, 0, e);
    assert(trim_end_sigils(t@) == t@);
    let mut b: usize = t.len();
    assert(t@.subrange(0, t@.len() as int) =~= t@);
    assert(t@.subrange(t@.len() as int, t@.len() as int) =~= Seq::<char>::empty());
    assert(after_last_sigil(t@) =~= after_last_sigil(t@.subrange(0, t@.len() as int)) + t@.subrange(
        t@.len() as int,
        t@.len() as int,
    ));
    while b > 0 && !is_sigil_char(t[b - 1])
        invariant
            b <= t@.len(),
            after_last_sigil(t@) == after_last_sigil(t@.subrange(0, b as int)) + t@.subrange(b as int, t@.len() as int),
        decreases b,
    {
        let ghost pre = t@.subrange(0, b as int);
        assert(pre.drop_last() =~= t@.subrange(0, b - 1));
        assert(t@.subrange(b - 1, t@.len() as int) =~= seq![t@[b - 1]] + t@.subrange(b as int, t@.len() as int));
        assert(after_last_sigil(pre) == after_last_sigil(pre.drop_last()).push(pre.last()));
        assert(after_last_sigil(pre.drop_last()).push(pre.last()) + t@.subrange(b as int, t@.len() as int) =~= after_last_sigil(
            pre.drop_last(),
        ) + t@.subrange(b - 1, t@.len() as int));
        b = b - 1;
    }
    assert(after_last_sigil(t@.subrange(0, b as int)) =~= Seq::<char>::empty());
    let mut lo: usize = b;
    let hi0: usize = t.len();
    assert(t@.subrange(b as int, hi0 as int) =~= after_last_sigil(t@));
    while lo < hi0 && t[lo] == '`'
        invariant
            b <= lo <= hi0 == t@.len(),
            trim_start_ticks(after_last_sigil(t@)) == trim_start_ticks(t@.subrange(lo as int, hi0 as int)),
        decreases hi0 - lo,
    {
        assert(t@.subrange(lo as int, hi0 as int).drop_first() =~= t@.subrange(lo + 1, hi0 as int));
        lo = lo + 1;
    }
    let mut hi: usize = hi0;
    assert(trim_start_ticks(t@.subrange(lo as int, hi0 as int)) == t@.subrange(lo as int, hi0 as int));
    while hi > lo && t[hi - 1] == '`'
        invariant
            lo <= hi <= hi0 == t@.len(),
            trim_end_ticks(t@.subrange(lo as int, hi0 as int)) == trim_end_ticks(t@.subrange(lo as int, hi as int)),
        decreases hi,
    {
        assert(t@.subrange(lo as int, hi as int).drop_last() =~= t@.subrange(lo as int, hi - 1));
        hi = hi - 1;
    }
    let out = chars_slice(&t, lo, hi);
    string_from_chars(out.as_slice())
}


/// A reference key and symbol, as values.
pub type RefOccV = ((Seq<char>, i32, i32), Seq<char>);

impl View for RefOcc {
    type V = RefOccV;

    open spec fn view(&self) -> RefOccV {
        ((self.key.path@, self.key.line, self.key.col), self.symbol@)
    }
}

pub open spec fn refs_view(v: Seq<RefOcc>) -> Seq<RefOccV> {
    v.map_values(|r: RefOcc| r@)
}

/// The definition role bit of an occurrence.
pub open spec fn is_definition(roles: i32) -> bool {
    (roles & 1i32) != 0
}

/// Start `(line, column)` of a range; missing entries are 0.
pub open spec fn range_start(r: Seq<i32>) -> (i32, i32) {
    (if r.len() > 0 { r[0] } else { 0 }, if r.len() > 1 { r[1] } else { 0 })
}

/// The references of one document: non-definition occurrences with a
/// symbol, keyed by path and start, with normalised symbols.
pub open spec fn doc_refs(path: Seq<char>, occs: Seq<ScipOccurrenceV>) -> Seq<RefOccV>
    decreases occs.len(),
{
    if occs.len() == 0 {
        Seq::empty()
    } else {
        let prev = doc_refs(path, occs.drop_last());
        let o = occs.last();
        if is_definition(o.roles) || o.symbol.len() == 0 {
            prev
        } else {
            prev.push(((path, range_start(o.range).0, range_start(o.range).1), spec_normalize_symbol(o.symbol)))
        }
    }
}

/// The references of all documents, in order.
pub open spec fn all_refs(docs: Seq<ScipDocument>) -> Seq<RefOccV>
    decreases docs.len(),
{
    if docs.len() == 0 {
        Seq::empty()
    } else {
        all_refs(docs.drop_last()) + doc_refs(docs.last().relative_path@, occs_view(docs.last().occurrences@))
    }
}

pub(crate) fn start_of(r: &Vec<i32>) -> (p: (i32, i32))
    ensures
        p == range_start(r@),
{
    (if r.len() > 0 { r[0] } else { 0 }, if r.len() > 1 { r[1] } else { 0 })
}

/// The references of a SCIP index.
pub fn extract_refs(docs: &Vec<ScipDocument>) -> (r: Vec<RefOcc>)
    ensures
        refs_view(r@) == all_refs(docs@),
{
    let mut out: Vec<RefOcc> = Vec::new();
    let mut d: usize = 0;
    assert(docs@.subrange(0, 0) =~= Seq::<ScipDocument>::empty());
    assert(refs_view(out@) =~= Seq::<RefOccV>::empty());
    while d < docs.len()
        invariant
            d <= docs.len(),
            refs_view(out@) == all_refs(docs@.subrange(0, d as int)),
        decreases docs.len() - d,
    {
        let ghost dsub = docs@.subrange(0, (d + 1) as int);
        assert(dsub.drop_last() =~= docs@.subrange(0, d as int));
        let doc = &docs[d];
        let ghost base = refs_view(out@);
        let ghost ov = occs_view(doc.occurrences@);
        let mut k: usize = 0;
        assert(ov.subrange(0, 0) =~= Seq::<ScipOccurrenceV>::empty());
        assert(refs_view(out@) =~= base + doc_refs(doc.relative_path@, ov.subrange(0, 0)));
        while k < doc.occurrences.len()
            invariant
                k <= doc.occurrences.len(),
                ov == occs_view(doc.occurrences@),
                refs_view(out@) == base + doc_refs(doc.relative_path@, ov.subrange(0, k as int)),
            decreases doc.occurrences.len() - k,
        {
            let ghost osub = ov.subrange(0, (k + 1) as int);
            assert(osub.drop_last() =~= ov.subrange(0, k as int));
            let occ = &doc.occurrences[k];
            if (occ.symbol_roles & 1i32) == 0 && occ.symbol.unicode_len() > 0 {
                let (line, col) = start_of(&occ.range);
                let ro = RefOcc {
                    key: RefKey { path: doc.relative_path.clone(), line, col },
                    symbol: normalize_symbol(occ.symbol.as_str()),
                };
                let ghost pre = refs_view(out@);
                let ghost rv = ro@;
                out.push(ro);
                assert(refs_view(out@) =~= pre.push(rv));
            }
            k = k + 1;
        }
        assert(ov.subrange(0, ov.len() as int) =~= ov);
        k = 0;
        d = d + 1;
    }
    assert(docs@.subrange(0, docs@.len() as int) =~= docs@);
    out
}

/// The first reference at each position, in order.
pub open spec fn first_per_key(refs: Seq<RefOccV>) -> Seq<RefOccV>
    decreases refs.len(),
{
    if refs.len() == 0 {
        Seq::empty()
    } else {
        let prev = first_per_key(refs.drop_last());
        if exists|j: int| 0 <= j < prev.len() && (#[trigger] prev[j]).0 == refs.last().0 {
            prev
        } else {
            prev.push(refs.last())
        }
    }
}

/// The symbol recorded at a position, if any.
pub open spec fn symbol_at(m: Seq<RefOccV>, k: (Seq<char>, i32, i32)) -> Option<Seq<char>>
    decreases m.len(),
{
    if m.len() == 0 {
        None
    } else if m[0].0 == k {
        Some(m[0].1)
    } else {
        symbol_at(m.drop_first(), k)
    }
}

/// How many of the tool's positions carry the ground truth's symbol.
pub open spec fn agreeing(tool: Seq<RefOccV>, gt: Seq<RefOccV>) -> int
    decreases tool.len(),
{
    if tool.len() == 0 {
        0
    } else {
        agreeing(tool.drop_last(), gt) + if symbol_at(gt, tool.last().0) == Some(tool.last().1) { 1int } else { 0int }
    }
}

/// How many of the ground truth's positions the tool lacks.
pub open spec fn missing_positions(gt: Seq<RefOccV>, tool: Seq<RefOccV>) -> int
    decreases gt.len(),
{
    if gt.len() == 0 {
        0
    } else {
        missing_positions(gt.drop_last(), tool) + if symbol_at(tool, gt.last().0) is None { 1int } else { 0int }
    }
}

/// The counts behind the reference F1 score.
#[derive(Debug)]
pub struct F1Counts {
    pub ground_truth_refs: usize,
    pub tool_refs: usize,
    pub true_pos: usize,
    pub false_pos: usize,
    pub false_neg: usize,
}

pub(crate) fn key_eq(a: &RefKey, b: &RefKey) -> (r: bool)
    ensures
        r == ((a.path@, a.line, a.col) == (b.path@, b.line, b.col)),
{
    a.line == b.line && a.col == b.col && str_eq(a.path.as_str(), b.path.as_str())
}

fn first_per_key_exec(refs: &Vec<RefOcc>) -> (r: Vec<RefOcc>)
    ensures
        refs_view(r@) == first_per_key(refs_view(refs@)),
{
    let ghost rv = refs_view(refs@);
    let mut out: Vec<RefOcc> = Vec::new();
    let mut i: usize = 0;
    assert(rv.subrange(0, 0) =~= Seq::<RefOccV>::empty());
    assert(refs_view(out@) =~= Seq::<RefOccV>::empty());
    while i < refs.len()
        invariant
            i <= refs.len(),
            rv == refs_view(refs@),
            refs_view(out@) == first_per_key(rv.subrange(0, i as int)),
        decreases refs.len() - i,
    {
        let ghost sub = rv.subrange(0, (i + 1) as int);
        assert(sub.drop_last() =~= rv.subrange(0, i as int));
        let ghost ov = refs_view(out@);
        let mut found = false;
        let mut j: usize = 0;
        while j < out.len()
            invariant
                j <= out.len(),
                ov == refs_view(out@),
                i < refs.len(),
                rv == refs_view(refs@),
                !found ==> forall|m: int| 0 <= m < j ==> ov[m].0 != rv[i as int].0,
                found ==> exists|m: int| 0 <= m < ov.len() && (#[trigger] ov[m]).0 == rv[i as int].0,
            decreases out.len() - j,
        {
            if key_eq(&out[j].key, &refs[i].key) {
                assert(ov[j as int].0 == rv[i as int].0);
                found = true;
            }
            j = j + 1;
        }
        if !found {
            let r = RefOcc {
                key: RefKey { path: refs[i].key.path.clone(), line: refs[i].key.line, col: refs[i].key.col },
                symbol: refs[i].symbol.clone(),
            };
            out.push(r);
            assert(refs_view(out@) =~= ov.push(rv[i as int]));
        }
        i = i + 1;
    }
    assert(rv.subrange(0, rv.len() as int) =~= rv);
    out
}

fn symbol_at_exec(m: &Vec<RefOcc>, k: &RefKey) -> (r: Option<usize>)
    ensures
        match r {
            Some(i) => i < m@.len() && symbol_at(refs_view(m@), (k.path@, k.line, k.col)) == Some(m@[i as int].symbol@),
            None => symbol_at(refs_view(m@), (k.path@, k.line, k.col)) is None,
        },
{
    let ghost mv = refs_view(m@);
    let ghost kv = (k.path@, k.line, k.col);
    let mut i: usize = 0;
    assert(mv.subrange(0, mv.len() as int) =~= mv);
    while i < m.len()
        invariant
            i <= m.len(),
            mv == refs_view(m@),
            kv == (k.path@, k.line, k.col),
            symbol_at(mv, kv) == symbol_at(mv.subrange(i as int, mv.len() as int), kv),
        decreases m.len() - i,
    {
        let ghost rest = mv.subrange(i as int, mv.len() as int);
        assert(rest.drop_first() =~= mv.subrange(i + 1, mv.len() as int));
        assert(rest[0] == mv[i as int]);
        assert(mv[i as int] == m@[i as int]@);
        if key_eq(&m[i].key, k) {
            return Some(i);
        }
        i = i + 1;
    }
    None
}

proof fn first_per_key_len(refs: Seq<RefOccV>)
    ensures
        first_per_key(refs).len() <= refs.len(),
    decreases refs.len(),
{
    if refs.len() > 0 {
        first_per_key_len(refs.drop_last());
    }
}

/// Reference F1 counts: positions are compared once each (the first
/// reference at a position counts); a tool position is a true positive when
/// the ground truth has the same symbol there.
pub fn f1_counts(gt: &Vec<RefOcc>, tool: &Vec<RefOcc>) -> (r: F1Counts)
    ensures
        ({
            let g = first_per_key(refs_view(gt@));
            let t = first_per_key(refs_view(tool@));
            &&& r.ground_truth_refs == g.len()
            &&& r.tool_refs == t.len()
            &&& r.true_pos == agreeing(t, g)
            &&& r.false_pos == t.len() - agreeing(t, g)
            &&& r.false_neg == missing_positions(g, t)
        }),
{
    let g = first_per_key_exec(gt);
    let t = first_per_key_exec(tool);
    let ghost gv = refs_view(g@);
    let ghost tv = refs_view(t@);
    let mut tp: usize = 0;
    let mut i: usize = 0;
    assert(tv.subrange(0, 0) =~= Seq::<RefOccV>::empty());
    while i < t.len()
        invariant
            i <= t.len(),
            gv == refs_view(g@),
            tv == refs_view(t@),
            tp <= i,
            tp == agreeing(tv.subrange(0, i as int), gv),
        decreases t.len() - i,
    {
        let ghost sub = tv.subrange(0, (i + 1) as int);
        assert(sub.drop_last() =~= tv.subrange(0, i as int));
        match symbol_at_exec(&g, &t[i].key) {
            Some(j) => {
                if str_eq(g[j].symbol.as_str(), t[i].symbol.as_str()) {
                    tp = tp + 1;
                }
            },
            None => {},
        }
        i = i + 1;
    }
    assert(tv.subrange(0, tv.len() as int) =~= tv);
    let mut fn_count: usize = 0;
    let mut k: usize = 0;
    assert(gv.subrange(0, 0) =~= Seq::<RefOccV>::empty());
    while k < g.len()
        invariant
            k <= g.len(),
            gv == refs_view(g@),
            tv == refs_view(t@),
            fn_count <= k,
            fn_count == missing_positions(gv.subrange(0, k as int), tv),
        decreases g.len() - k,
    {
        let ghost sub = gv.subrange(0, (k + 1) as int);
        assert(sub.drop_last() =~= gv.subrange(0, k as int));
        if symbol_at_exec(&t, &g[k].key).is_none() {
            fn_count = fn_count + 1;
        }
        k = k + 1;
    }
    assert(gv.subrange(0, gv.len() as int) =~= gv);
    F1Counts { ground_truth_refs: g.len(), tool_refs: t.len(), true_pos: tp, false_pos: t.len() - tp, false_neg: fn_count }
}


/// A definition's span `(start line, start col, end line, end col)`.
pub type SpanV = (i32, i32, i32, i32);

/// End `(line, column)` of a range: `[sl, sc, ec]` ends on its start line.
pub open spec fn range_end(r: Seq<i32>) -> (i32, i32) {
    if r.len() == 3 {
        (r[0], r[2])
    } else if r.len() == 4 {
        (r[2], r[3])
    } else {
        range_start(r)
    }
}

/// The body span of a definition: its enclosing range when it has one,
/// otherwise its own range.
pub open spec fn def_span(o: ScipOccurrenceV) -> SpanV {
    let e = o.enclosing;
    if e.len() >= 4 {
        (e[0], e[1], e[2], e[3])
    } else if e.len() == 3 {
        (e[0], e[1], e[0], e[2])
    } else {
        (range_start(o.range).0, range_start(o.range).1, range_end(o.range).0, range_end(o.range).1)
    }
}

pub open spec fn is_def_occ(o: ScipOccurrenceV) -> bool {
    is_definition(o.roles) && o.symbol.len() > 0
}

/// The definitions of a document with their spans, in order.
pub open spec fn doc_defs(occs: Seq<ScipOccurrenceV>) -> Seq<(SpanV, Seq<char>)>
    decreases occs.len(),
{
    if occs.len() == 0 {
        Seq::empty()
    } else if is_def_occ(occs.last()) {
        doc_defs(occs.drop_last()).push((def_span(occs.last()), occs.last().symbol))
    } else {
        doc_defs(occs.drop_last())
    }
}

/// Definition order: by start, then longer spans first.
pub open spec fn def_after() -> spec_fn((SpanV, Seq<char>), (SpanV, Seq<char>)) -> bool {
    |a: (SpanV, Seq<char>), b: (SpanV, Seq<char>)|
        a.0.0 > b.0.0 || (a.0.0 == b.0.0 && (a.0.1 > b.0.1 || (a.0.1 == b.0.1 && (a.0.2 < b.0.2 || (a.0.2 == b.0.2
            && a.0.3 < b.0.3)))))
}

/// Whether a span contains position `(l, c)` (end exclusive).
pub open spec fn encloses(d: SpanV, l: i32, c: i32) -> bool {
    (d.0 < l || (d.0 == l && d.1 <= c)) && (d.2 > l || (d.2 == l && d.3 > c))
}

/// The size of a span, lines weighing 10 000 columns.
pub open spec fn span_size(d: SpanV) -> int {
    (d.2 - d.0) * 10000 + (d.3 - d.1)
}

/// The line and column differences of a span fit in an `i32`.
pub open spec fn span_fits(d: SpanV) -> bool {
    i32::MIN <= d.2 - d.0 <= i32::MAX && i32::MIN <= d.3 - d.1 <= i32::MAX
}

/// Every definition span of every document fits.
pub open spec fn spans_fit(docs: Seq<ScipDocument>) -> bool {
    forall|d: int, k: int|
        0 <= d < docs.len() && 0 <= k < docs[d].occurrences@.len() && is_def_occ(#[trigger] docs[d].occurrences@[k]@)
            ==> span_fits(def_span(docs[d].occurrences@[k]@))
}

/// The smallest definition containing `(l, c)`, the earliest among equals,
/// with its size (the size bound when there is none).
pub open spec fn best_def(defs: Seq<(SpanV, Seq<char>)>, l: i32, c: i32) -> (Option<Seq<char>>, int)
    decreases defs.len(),
{
    if defs.len() == 0 {
        (None, i64::MAX as int)
    } else {
        let (b, bs) = best_def(defs.drop_last(), l, c);
        let d = defs.last();
        if encloses(d.0, l, c) && span_size(d.0) < bs {
            (Some(d.1), span_size(d.0))
        } else {
            (b, bs)
        }
    }
}

/// The caller/callee pair a reference contributes, if any.
pub open spec fn ref_pair(defs: Seq<(SpanV, Seq<char>)>, o: ScipOccurrenceV) -> Option<(Seq<char>, Seq<char>)> {
    if is_definition(o.roles) || o.symbol.len() == 0 {
        None
    } else {
        match best_def(defs, range_start(o.range).0, range_start(o.range).1).0 {
            None => None,
            Some(caller) => {
                let ct = spec_symbol_tail(caller);
                let et = spec_symbol_tail(o.symbol);
                if ct.len() == 0 || et.len() == 0 || ct == et {
                    None
                } else {
                    Some((ct, et))
                }
            },
        }
    }
}

/// `p` added to a list of distinct pairs.
pub open spec fn add_pair(acc: Seq<(Seq<char>, Seq<char>)>, p: Option<(Seq<char>, Seq<char>)>) -> Seq<(Seq<char>, Seq<char>)> {
    match p {
        Some(x) => if acc.contains(x) {
            acc
        } else {
            acc.push(x)
        },
        None => acc,
    }
}

pub open spec fn doc_pairs(
    acc: Seq<(Seq<char>, Seq<char>)>,
    defs: Seq<(SpanV, Seq<char>)>,
    occs: Seq<ScipOccurrenceV>,
) -> Seq<(Seq<char>, Seq<char>)>
    decreases occs.len(),
{
    if occs.len() == 0 {
        acc
    } else {
        add_pair(doc_pairs(acc, defs, occs.drop_last()), ref_pair(defs, occs.last()))
    }
}

/// The distinct `(caller tail, callee tail)` pairs of an index, in order of
/// first appearance: each reference's caller is the smallest definition of
/// its document enclosing it; self-loops and empty tails are dropped.
pub open spec fn scip_pairs(docs: Seq<ScipDocument>) -> Seq<(Seq<char>, Seq<char>)>
    decreases docs.len(),
{
    if docs.len() == 0 {
        Seq::empty()
    } else {
        let ov = occs_view(docs.last().occurrences@);
        doc_pairs(scip_pairs(docs.drop_last()), sort_ordered(doc_defs(ov), def_after()), ov)
    }
}

pub open spec fn str_pairs_view(v: Seq<(String, String)>) -> Seq<(Seq<char>, Seq<char>)> {
    v.map_values(|p: (String, String)| (p.0@, p.1@))
}

pub open spec fn defs_view(v: Seq<((i32, i32, i32, i32), String)>) -> Seq<(SpanV, Seq<char>)> {
    v.map_values(|d: ((i32, i32, i32, i32), String)| (d.0, d.1@))
}

fn end_of(r: &Vec<i32>) -> (p: (i32, i32))
    ensures
        p == range_end(r@),
{
    if r.len() == 3 {
        (r[0], r[2])
    } else if r.len() == 4 {
        (r[2], r[3])
    } else {
        start_of(r)
    }
}

fn span_of(o: &ScipOccurrence) -> (s: (i32, i32, i32, i32))
    ensures
        s == def_span(o@),
{
    let e = &o.enclosing_range;
    if e.len() >= 4 {
        (e[0], e[1], e[2], e[3])
    } else if e.len() == 3 {
        (e[0], e[1], e[0], e[2])
    } else {
        let (sl, sc) = start_of(&o.range);
        let (el, ec) = end_of(&o.range);
        (sl, sc, el, ec)
    }
}

fn def_is_after(a: &((i32, i32, i32, i32), String), b: &((i32, i32, i32, i32), String)) -> (r: bool)
    ensures
        r == (def_after())((a.0, a.1@), (b.0, b.1@)),
{
    let (x, y) = (a.0, b.0);
    x.0 > y.0 || (x.0 == y.0 && (x.1 > y.1 || (x.1 == y.1 && (x.2 < y.2 || (x.2 == y.2 && x.3 < y.3)))))
}

fn sorted_defs(occs: &Vec<ScipOccurrence>) -> (r: Vec<((i32, i32, i32, i32), String)>)
    ensures
        defs_view(r@) == sort_ordered(doc_defs(occs_view(occs@)), def_after()),
{
    let ghost ov = occs_view(occs@);
    let mut defs: Vec<((i32, i32, i32, i32), String)> = Vec::new();
    let mut k: usize = 0;
    assert(ov.subrange(0, 0) =~= Seq::<ScipOccurrenceV>::empty());
    assert(defs_view(defs@) =~= Seq::<(SpanV, Seq<char>)>::empty());
    while k < occs.len()
        invariant
            k <= occs.len(),
            ov == occs_view(occs@),
            defs_view(defs@) == doc_defs(ov.subrange(0, k as int)),
        decreases occs.len() - k,
    {
        let ghost sub = ov.subrange(0, (k + 1) as int);
        assert(sub.drop_last() =~= ov.subrange(0, k as int));
        let o = &occs[k];
        if (o.symbol_roles & 1i32) != 0 && o.symbol.unicode_len() > 0 {
            let d = (span_of(o), o.symbol.clone());
            let ghost pre = defs_view(defs@);
            let ghost dv = (d.0, d.1@);
            defs.push(d);
            assert(defs_view(defs@) =~= pre.push(dv));
        }
        k = k + 1;
    }
    assert(ov.subrange(0, ov.len() as int) =~= ov);
    let ghost all = defs_view(defs@);
    let mut out: Vec<((i32, i32, i32, i32), String)> = Vec::new();
    let mut i: usize = 0;
    assert(all.subrange(0, 0) =~= Seq::<(SpanV, Seq<char>)>::empty());
    assert(defs_view(out@) =~= Seq::<(SpanV, Seq<char>)>::empty());
    while i < defs.len()
        invariant
            i <= defs.len(),
            all == defs_view(defs@),
            defs_view(out@) == sort_ordered(all.subrange(0, i as int), def_after()),
        decreases defs.len() - i,
    {
        let ghost sub = all.subrange(0, (i + 1) as int);
        assert(sub.drop_last() =~= all.subrange(0, i as int));
        let x = (defs[i].0, defs[i].1.clone());
        let ghost xv = (x.0, x.1@);
        let ghost pv = defs_view(out@);
        let mut j: usize = out.len();
        while j > 0 && def_is_after(&out[j - 1], &x)
            invariant
                j <= out.len(),
                pv == defs_view(out@),
                xv == (x.0, x.1@),
                forall|m: int| j <= m < pv.len() ==> (def_after())(#[trigger] pv[m], xv),
            decreases j,
        {
            j = j - 1;
        }
        proof {
            insert_ordered_at(pv, xv, def_after(), j as int);
        }
        out.insert(j, x);
        assert(defs_view(out@) =~= pv.insert(j as int, xv));
        i = i + 1;
    }
    assert(all.subrange(0, all.len() as int) =~= all);
    out
}

fn best_caller(defs: &Vec<((i32, i32, i32, i32), String)>, l: i32, c: i32) -> (r: Option<usize>)
    requires
        forall|k: int| 0 <= k < defs@.len() ==> span_fits(#[trigger] defs@[k].0),
    ensures
        match r {
            Some(k) => k < defs@.len() && best_def(defs_view(defs@), l, c).0 == Some(defs@[k as int].1@),
            None => best_def(defs_view(defs@), l, c).0 is None,
        },
{
    let ghost dv = defs_view(defs@);
    let mut best: Option<usize> = None;
    let mut best_size: i64 = i64::MAX;
    let mut k: usize = 0;
    assert(dv.subrange(0, 0) =~= Seq::<(SpanV, Seq<char>)>::empty());
    while k < defs.len()
        invariant
            k <= defs.len(),
            dv == defs_view(defs@),
            forall|m: int| 0 <= m < defs@.len() ==> span_fits(#[trigger] defs@[m].0),
            best_def(dv.subrange(0, k as int), l, c).1 == best_size as int,
            match best {
                Some(b) => b < k && best_def(dv.subrange(0, k as int), l, c).0 == Some(defs@[b as int].1@),
                None => best_def(dv.subrange(0, k as int), l, c).0 is None,
            },
        decreases defs.len() - k,
    {
        let ghost sub = dv.subrange(0, (k + 1) as int);
        assert(sub.drop_last() =~= dv.subrange(0, k as int));
        let (sl, sc, el, ec) = defs[k].0;
        assert(span_fits(defs@[k as int].0));
        let starts_before = sl < l || (sl == l && sc <= c);
        let ends_after = el > l || (el == l && ec > c);
        if starts_before && ends_after {
            let size: i64 = ((el - sl) as i64) * 10000 + ((ec - sc) as i64);
            if size < best_size {
                best_size = size;
                best = Some(k);
            }
        }
        k = k + 1;
    }
    assert(dv.subrange(0, dv.len() as int) =~= dv);
    best
}

fn contains_str_pair(v: &Vec<(String, String)>, a: &String, b: &String) -> (r: bool)
    ensures
        r == str_pairs_view(v@).contains((a@, b@)),
{
    let mut i: usize = 0;
    while i < v.len()
        invariant
            i <= v.len(),
            forall|k: int| 0 <= k < i ==> (v@[k].0@, v@[k].1@) != (a@, b@),
        decreases v.len() - i,
    {
        if str_eq(v[i].0.as_str(), a.as_str()) && str_eq(v[i].1.as_str(), b.as_str()) {
            assert(str_pairs_view(v@)[i as int] == (a@, b@));
            return true;
        }
        i = i + 1;
    }
    false
}

proof fn insert_ordered_subset<T>(s: Seq<T>, x: T, after: spec_fn(T, T) -> bool)
    ensures
        forall|y: T| #[trigger] insert_ordered(s, x, after).contains(y) ==> s.contains(y) || y == x,
    decreases s.len(),
{
    if s.len() > 0 && after(s.last(), x) {
        insert_ordered_subset(s.drop_last(), x, after);
        assert forall|y: T| #[trigger] insert_ordered(s, x, after).contains(y) implies s.contains(y) || y == x by {
            let r = insert_ordered(s.drop_last(), x, after);
            if r.push(s.last()).contains(y) && y != s.last() {
                let i = choose|i: int| 0 <= i < r.push(s.last()).len() && r.push(s.last())[i] == y;
                assert(r[i] == y);
                assert(r.contains(y));
                if y != x {
                    let j = choose|j: int| 0 <= j < s.drop_last().len() && s.drop_last()[j] == y;
                    assert(s[j] == y);
                }
            }
        }
    } else if s.len() > 0 {
        assert forall|y: T| #[trigger] insert_ordered(s, x, after).contains(y) implies s.contains(y) || y == x by {
            if s.push(x).contains(y) && y != x {
                let i = choose|i: int| 0 <= i < s.push(x).len() && s.push(x)[i] == y;
                assert(s[i] == y);
            }
        }
    } else {
        assert forall|y: T| #[trigger] insert_ordered(s, x, after).contains(y) implies s.contains(y) || y == x by {
            assert(insert_ordered(s, x, after) == seq![x]);
        }
    }
}

proof fn sort_ordered_subset<T>(s: Seq<T>, after: spec_fn(T, T) -> bool)
    ensures
        forall|y: T| #[trigger] sort_ordered(s, after).contains(y) ==> s.contains(y),
    decreases s.len(),
{
    if s.len() > 0 {
        sort_ordered_subset(s.drop_last(), after);
        insert_ordered_subset(sort_ordered(s.drop_last(), after), s.last(), after);
        assert forall|y: T| #[trigger] sort_ordered(s, after).contains(y) implies s.contains(y) by {
            if y != s.last() {
                assert(sort_ordered(s.drop_last(), after).contains(y));
                let j = choose|j: int| 0 <= j < s.drop_last().len() && s.drop_last()[j] == y;
                assert(s[j] == y);
            } else {
                assert(s[s.len() - 1] == y);
            }
        }
    }
}

proof fn doc_defs_fit(ov: Seq<ScipOccurrenceV>)
    requires
        forall|k: int| 0 <= k < ov.len() && is_def_occ(#[trigger] ov[k]) ==> span_fits(def_span(ov[k])),
    ensures
        forall|y: (SpanV, Seq<char>)| #[trigger] doc_defs(ov).contains(y) ==> span_fits(y.0),
    decreases ov.len(),
{
    if ov.len() > 0 {
        assert forall|k: int| 0 <= k < ov.drop_last().len() && is_def_occ(#[trigger] ov.drop_last()[k]) implies span_fits(
            def_span(ov.drop_last()[k]),
        ) by {
            assert(ov.drop_last()[k] == ov[k]);
        }
        doc_defs_fit(ov.drop_last());
        assert forall|y: (SpanV, Seq<char>)| #[trigger] doc_defs(ov).contains(y) implies span_fits(y.0) by {
            if is_def_occ(ov.last()) {
                let r = doc_defs(ov.drop_last());
                if y != (def_span(ov.last()), ov.last().symbol) {
                    let i = choose|i: int| 0 <= i < r.push((def_span(ov.last()), ov.last().symbol)).len() && r.push(
                        (def_span(ov.last()), ov.last().symbol),
                    )[i] == y;
                    assert(r[i] == y);
                    assert(r.contains(y));
                } else {
                    assert(ov[ov.len() - 1] == ov.last());
                }
            } else {
                assert(doc_defs(ov) == doc_defs(ov.drop_last()));
                assert(doc_defs(ov.drop_last()).contains(y));
            }
        }
    }
}

proof fn defs_fit(docs: Seq<ScipDocument>, d: int, dv: Seq<(SpanV, Seq<char>)>)
    requires
        spans_fit(docs),
        0 <= d < docs.len(),
        dv == sort_ordered(doc_defs(occs_view(docs[d].occurrences@)), def_after()),
    ensures
        forall|m: int| 0 <= m < dv.len() ==> span_fits(#[trigger] dv[m].0),
{
    let ov = occs_view(docs[d].occurrences@);
    assert forall|k: int| 0 <= k < ov.len() && is_def_occ(#[trigger] ov[k]) implies span_fits(def_span(ov[k])) by {
        assert(ov[k] == docs[d].occurrences@[k]@);
    }
    doc_defs_fit(ov);
    sort_ordered_subset(doc_defs(ov), def_after());
    assert forall|m: int| 0 <= m < dv.len() implies span_fits(#[trigger] dv[m].0) by {
        assert(dv.contains(dv[m]));
    }
}

/// Whether every definition span of the index fits (`scip_edge_pairs`
/// needs it: the span sizes are computed in `i32`).
pub fn spans_fit_check(docs: &Vec<ScipDocument>) -> (b: bool)
    ensures
        b == spans_fit(docs@),
{
    let mut d: usize = 0;
    while d < docs.len()
        invariant
            d <= docs.len(),
            forall|d2: int, k: int|
                0 <= d2 < d && 0 <= k < docs@[d2].occurrences@.len() && is_def_occ(#[trigger] docs@[d2].occurrences@[k]@)
                    ==> span_fits(def_span(docs@[d2].occurrences@[k]@)),
        decreases docs.len() - d,
    {
        let occs = &docs[d].occurrences;
        let mut k: usize = 0;
        while k < occs.len()
            invariant
                d < docs.len(),
                k <= occs.len(),
                occs@ == docs@[d as int].occurrences@,
                forall|d2: int, k2: int|
                    0 <= d2 < d && 0 <= k2 < docs@[d2].occurrences@.len() && is_def_occ(#[trigger] docs@[d2].occurrences@[k2]@)
                        ==> span_fits(def_span(docs@[d2].occurrences@[k2]@)),
                forall|k2: int| 0 <= k2 < k && is_def_occ(#[trigger] occs@[k2]@) ==> span_fits(def_span(occs@[k2]@)),
            decreases occs.len() - k,
        {
            let o = &occs[k];
            if (o.symbol_roles & 1i32) != 0 && o.symbol.unicode_len() > 0 {
                let s = span_of(o);
                let dl: i64 = s.2 as i64 - s.0 as i64;
                let dc: i64 = s.3 as i64 - s.1 as i64;
                if dl < i32::MIN as i64 || dl > i32::MAX as i64 || dc < i32::MIN as i64 || dc > i32::MAX as i64 {
                    assert(is_def_occ(docs@[d as int].occurrences@[k as int]@));
                    return false;
                }
            }
            k = k + 1;
        }
        assert forall|d2: int, k2: int|
            0 <= d2 < d + 1 && 0 <= k2 < docs@[d2].occurrences@.len() && is_def_occ(#[trigger] docs@[d2].occurrences@[k2]@)
                implies span_fits(def_span(docs@[d2].occurrences@[k2]@)) by {
            if d2 == d {
                assert(occs@[k2] == docs@[d2].occurrences@[k2]);
            }
        }
        d = d + 1;
    }
    true
}

/// The caller/callee pairs of a SCIP index.
pub fn scip_edge_pairs(docs: &Vec<ScipDocument>) -> (r: Vec<(String, String)>)
    requires
        spans_fit(docs@),
    ensures
        str_pairs_view(r@) == scip_pairs(docs@),
{
    let mut out: Vec<(String, String)> = Vec::new();
    let mut d: usize = 0;
    assert(docs@.subrange(0, 0) =~= Seq::<ScipDocument>::empty());
    assert(str_pairs_view(out@) =~= Seq::<(Seq<char>, Seq<char>)>::empty());
    while d < docs.len()
        invariant
            d <= docs.len(),
            spans_fit(docs@),
            str_pairs_view(out@) == scip_pairs(docs@.subrange(0, d as int)),
        decreases docs.len() - d,
    {
        let ghost dsub = docs@.subrange(0, (d + 1) as int);
        assert(dsub.drop_last() =~= docs@.subrange(0, d as int));
        let doc = &docs[d];
        let ghost ov = occs_view(doc.occurrences@);
        let defs = sorted_defs(&doc.occurrences);
        proof {
            defs_fit(docs@, d as int, defs_view(defs@));
            assert forall|m: int| 0 <= m < defs@.len() implies span_fits(#[trigger] defs@[m].0) by {
                assert(defs_view(defs@)[m].0 == defs@[m].0);
            }
        }
        let ghost acc0 = str_pairs_view(out@);
        let mut k: usize = 0;
        assert(ov.subrange(0, 0) =~= Seq::<ScipOccurrenceV>::empty());
        while k < doc.occurrences.len()
            invariant
                k <= doc.occurrences.len(),
                ov == occs_view(doc.occurrences@),
                forall|m: int| 0 <= m < defs@.len() ==> span_fits(#[trigger] defs@[m].0),
                str_pairs_view(out@) == doc_pairs(acc0, defs_view(defs@), ov.subrange(0, k as int)),
            decreases doc.occurrences.len() - k,
        {
            let ghost osub = ov.subrange(0, (k + 1) as int);
            assert(osub.drop_last() =~= ov.subrange(0, k as int));
            let o = &doc.occurrences[k];
            if (o.symbol_roles & 1i32) == 0 && o.symbol.unicode_len() > 0 {
                let (rl, rc) = start_of(&o.range);
                match best_caller(&defs, rl, rc) {
                    Some(b) => {
                        let ct = scip_symbol_tail(defs[b].1.as_str());
                        let et = scip_symbol_tail(o.symbol.as_str());
                        if ct.unicode_len() > 0 && et.unicode_len() > 0 && !str_eq(ct.as_str(), et.as_str()) {
                            if !contains_str_pair(&out, &ct, &et) {
                                let ghost pre = str_pairs_view(out@);
                                let ghost pv = (ct@, et@);
                                out.push((ct, et));
                                assert(str_pairs_view(out@) =~= pre.push(pv));
                            }
                        }
                    },
                    None => {},
                }
            }
            k = k + 1;
        }
        assert(ov.subrange(0, ov.len() as int) =~= ov);
        d = d + 1;
    }
    assert(docs@.subrange(0, docs@.len() as int) =~= docs@);
    out
}


/// How many of `xs` occur (or, with `inside` false, do not occur) in `ys`.
pub open spec fn count_where(xs: Seq<(Seq<char>, Seq<char>)>, ys: Seq<(Seq<char>, Seq<char>)>, inside: bool) -> int
    decreases xs.len(),
{
    if xs.len() == 0 {
        0
    } else {
        count_where(xs.drop_last(), ys, inside) + if ys.contains(xs.last()) == inside { 1int } else { 0int }
    }
}

/// The first ten of `xs` that do not occur in `ys`.
pub open spec fn sample_absent(xs: Seq<(Seq<char>, Seq<char>)>, ys: Seq<(Seq<char>, Seq<char>)>) -> Seq<(Seq<char>, Seq<char>)>
    decreases xs.len(),
{
    if xs.len() == 0 {
        Seq::empty()
    } else {
        let p = sample_absent(xs.drop_last(), ys);
        if !ys.contains(xs.last()) && p.len() < 10 {
            p.push(xs.last())
        } else {
            p
        }
    }
}

/// The counts behind the edge-pair F1 score, with samples of the pairs
/// each side lacks.
#[derive(Debug)]
pub struct PairCounts {
    pub ground_truth_pairs: usize,
    pub tool_pairs: usize,
    pub true_pos: usize,
    pub false_pos: usize,
    pub false_neg: usize,
    pub missing_sample: Vec<(String, String)>,
    pub extra_sample: Vec<(String, String)>,
}

fn count_and_sample(xs: &Vec<(String, String)>, ys: &Vec<(String, String)>) -> (r: (usize, usize, Vec<(String, String)>))
    ensures
        r.0 == count_where(str_pairs_view(xs@), str_pairs_view(ys@), true),
        r.1 == count_where(str_pairs_view(xs@), str_pairs_view(ys@), false),
        str_pairs_view(r.2@) == sample_absent(str_pairs_view(xs@), str_pairs_view(ys@)),
{
    let ghost xv = str_pairs_view(xs@);
    let ghost yv = str_pairs_view(ys@);
    let mut hit: usize = 0;
    let mut miss: usize = 0;
    let mut sample: Vec<(String, String)> = Vec::new();
    let mut i: usize = 0;
    assert(xv.subrange(0, 0) =~= Seq::<(Seq<char>, Seq<char>)>::empty());
    assert(str_pairs_view(sample@) =~= Seq::<(Seq<char>, Seq<char>)>::empty());
    while i < xs.len()
        invariant
            i <= xs.len(),
            xv == str_pairs_view(xs@),
            yv == str_pairs_view(ys@),
            hit + miss == i,
            hit == count_where(xv.subrange(0, i as int), yv, true),
            miss == count_where(xv.subrange(0, i as int), yv, false),
            str_pairs_view(sample@) == sample_absent(xv.subrange(0, i as int), yv),
        decreases xs.len() - i,
    {
        let ghost sub = xv.subrange(0, (i + 1) as int);
        assert(sub.drop_last() =~= xv.subrange(0, i as int));
        assert(sub.last() == (xs@[i as int].0@, xs@[i as int].1@));
        if contains_str_pair(ys, &xs[i].0, &xs[i].1) {
            hit = hit + 1;
        } else {
            miss = miss + 1;
            if sample.len() < 10 {
                let ghost pre = str_pairs_view(sample@);
                sample.push((xs[i].0.clone(), xs[i].1.clone()));
                assert(str_pairs_view(sample@) =~= pre.push(sub.last()));
            }
        }
        i = i + 1;
    }
    assert(xv.subrange(0, xv.len() as int) =~= xv);
    (hit, miss, sample)
}

/// Edge-pair F1 counts: pairs both sides assert, pairs only the tool
/// asserts, pairs only the ground truth asserts.
pub fn pair_counts(gt: &Vec<(String, String)>, tool: &Vec<(String, String)>) -> (r: PairCounts)
    ensures
        r.ground_truth_pairs == gt@.len(),
        r.tool_pairs == tool@.len(),
        r.true_pos == count_where(str_pairs_view(tool@), str_pairs_view(gt@), true),
        r.false_pos == count_where(str_pairs_view(tool@), str_pairs_view(gt@), false),
        r.false_neg == count_where(str_pairs_view(gt@), str_pairs_view(tool@), false),
        str_pairs_view(r.extra_sample@) == sample_absent(str_pairs_view(tool@), str_pairs_view(gt@)),
        str_pairs_view(r.missing_sample@) == sample_absent(str_pairs_view(gt@), str_pairs_view(tool@)),
{
    let (tp, fp, extra) = count_and_sample(tool, gt);
    let (_, fneg, missing) = count_and_sample(gt, tool);
    PairCounts {
        ground_truth_pairs: gt.len(),
        tool_pairs: tool.len(),
        true_pos: tp,
        false_pos: fp,
        false_neg: fneg,
        missing_sample: missing,
        extra_sample: extra,
    }
}

proof fn first_per_key_distinct(refs: Seq<RefOccV>)
    ensures
        forall|i: int, j: int|
            0 <= i < j < first_per_key(refs).len() ==> (#[trigger] first_per_key(refs)[i]).0 != (
            #[trigger] first_per_key(refs)[j]).0,
    decreases refs.len(),
{
    if refs.len() > 0 {
        first_per_key_distinct(refs.drop_last());
        let prev = first_per_key(refs.drop_last());
        let g = first_per_key(refs);
        if !(exists|j: int| 0 <= j < prev.len() && (#[trigger] prev[j]).0 == refs.last().0) {
            assert forall|i: int, j: int| 0 <= i < j < g.len() implies (#[trigger] g[i]).0 != (#[trigger] g[j]).0 by {
                if j == prev.len() {
                    assert(g[i] == prev[i]);
                } else {
                    assert(g[i] == prev[i] && g[j] == prev[j]);
                }
            }
        }
    }
}

proof fn symbol_at_own(m: Seq<RefOccV>, i: int)
    requires
        0 <= i < m.len(),
        forall|a: int, b: int| 0 <= a < b < m.len() ==> (#[trigger] m[a]).0 != (#[trigger] m[b]).0,
    ensures
        symbol_at(m, m[i].0) == Some(m[i].1),
    decreases m.len(),
{
    if i > 0 {
        assert(m[0].0 != m[i].0);
        let t = m.drop_first();
        assert forall|a: int, b: int| 0 <= a < b < t.len() implies (#[trigger] t[a]).0 != (#[trigger] t[b]).0 by {
            assert(t[a] == m[a + 1] && t[b] == m[b + 1]);
        }
        symbol_at_own(t, i - 1);
    }
}

proof fn self_agreement(t: Seq<RefOccV>, m: Seq<RefOccV>)
    requires
        forall|k: int| 0 <= k < t.len() ==> symbol_at(m, (#[trigger] t[k]).0) == Some(t[k].1),
    ensures
        agreeing(t, m) == t.len(),
        missing_positions(t, m) == 0,
    decreases t.len(),
{
    if t.len() > 0 {
        let p = t.drop_last();
        assert forall|k: int| 0 <= k < p.len() implies symbol_at(m, (#[trigger] p[k]).0) == Some(p[k].1) by {
            assert(p[k] == t[k]);
        }
        self_agreement(p, m);
        assert(symbol_at(m, t[t.len() - 1].0) == Some(t[t.len() - 1].1));
    }
}

/// Scoring references against themselves finds no false positive and no
/// false negative: every position agrees.
pub proof fn references_agree_with_themselves(refs: Seq<RefOccV>)
    ensures
        agreeing(first_per_key(refs), first_per_key(refs)) == first_per_key(refs).len(),
        missing_positions(first_per_key(refs), first_per_key(refs)) == 0,
{
    let g = first_per_key(refs);
    first_per_key_distinct(refs);
    assert forall|k: int| 0 <= k < g.len() implies symbol_at(g, (#[trigger] g[k]).0) == Some(g[k].1) by {
        symbol_at_own(g, k);
    }
    self_agreement(g, g);
}

proof fn skip_dot_space(s: Seq<char>, n: nat)
    requires
        s.len() >= 2,
        s[0] == '.',
        s[1] == ' ',
        n > 0,
    ensures
        after_n_seps(s, ' ', n) == after_n_seps(s.subrange(2, s.len() as int), ' ', (n - 1) as nat),
{
    assert(first_index(s, ' ', 1) == 1);
    assert(first_index(s, ' ', 0) == 1);
}

/// Normalising a symbol twice gives what normalising it once gives.
pub proof fn normalize_symbol_is_idempotent(sym: Seq<char>)
    ensures
        spec_normalize_symbol(spec_normalize_symbol(sym)) == spec_normalize_symbol(sym),
{
    if !has_prefix(sym, "local "@) {
        reveal_strlit(". . . . ");
        reveal_strlit("local ");
        let d = match after_n_seps(sym, ' ', 4) {
            Some(d) => d,
            None => Seq::empty(),
        };
        let n = ". . . . "@ + d;
        assert(n == spec_normalize_symbol(sym));
        assert(!has_prefix(n, "local "@)) by {
            assert(n[0] == '.');
            assert("local "@[0] == 'l');
            assert(n.subrange(0, 6)[0] == n[0]);
        }
        let s1 = n.subrange(2, n.len() as int);
        let s2 = s1.subrange(2, s1.len() as int);
        let s3 = s2.subrange(2, s2.len() as int);
        let s4 = s3.subrange(2, s3.len() as int);
        skip_dot_space(n, 4);
        skip_dot_space(s1, 3);
        skip_dot_space(s2, 2);
        skip_dot_space(s3, 1);
        assert(s4 =~= d);
        assert(after_n_seps(s4, ' ', 0) == Some(d));
    }
}


proof fn count_where_split(xs: Seq<(Seq<char>, Seq<char>)>, ys: Seq<(Seq<char>, Seq<char>)>)
    ensures
        count_where(xs, ys, true) + count_where(xs, ys, false) == xs.len(),
        count_where(xs, ys, true) >= 0,
        count_where(xs, ys, false) >= 0,
    decreases xs.len(),
{
    if xs.len() > 0 {
        count_where_split(xs.drop_last(), ys);
    }
}

proof fn count_where_all_inside(xs: Seq<(Seq<char>, Seq<char>)>, ys: Seq<(Seq<char>, Seq<char>)>)
    requires
        forall|i: int| 0 <= i < xs.len() ==> ys.contains(#[trigger] xs[i]),
    ensures
        count_where(xs, ys, false) == 0,
    decreases xs.len(),
{
    if xs.len() > 0 {
        assert(ys.contains(xs[xs.len() - 1]));
        assert forall|i: int| 0 <= i < xs.drop_last().len() implies ys.contains(#[trigger] xs.drop_last()[i]) by {
            assert(ys.contains(xs[i]));
        }
        count_where_all_inside(xs.drop_last(), ys);
    }
}

proof fn sample_absent_bounds(xs: Seq<(Seq<char>, Seq<char>)>, ys: Seq<(Seq<char>, Seq<char>)>)
    ensures
        sample_absent(xs, ys).len() <= 10,
        sample_absent(xs, ys).len() == if count_where(xs, ys, false) < 10 { count_where(xs, ys, false) } else { 10 },
        forall|k: int|
            0 <= k < sample_absent(xs, ys).len() ==> xs.contains(#[trigger] sample_absent(xs, ys)[k]) && !ys.contains(
                sample_absent(xs, ys)[k],
            ),
    decreases xs.len(),
{
    if xs.len() > 0 {
        sample_absent_bounds(xs.drop_last(), ys);
        count_where_split(xs.drop_last(), ys);
        let p = sample_absent(xs.drop_last(), ys);
        assert forall|k: int| 0 <= k < sample_absent(xs, ys).len() implies xs.contains(
            #[trigger] sample_absent(xs, ys)[k],
        ) && !ys.contains(sample_absent(xs, ys)[k]) by {
            if k < p.len() {
                let x = p[k];
                assert(xs.drop_last().contains(x));
                let j = choose|j: int| 0 <= j < xs.drop_last().len() && xs.drop_last()[j] == x;
                assert(xs[j] == x);
            } else {
                assert(xs[xs.len() - 1] == xs.last());
            }
        }
    }
}

/// Every tool pair is counted once, as a true or as a false positive; each
/// sample holds the first ten absent pairs (all of them when fewer), each
/// from its own list and absent from the other; and a list compared with
/// itself has no false positive.
pub proof fn pair_counts_partition(tool: Seq<(Seq<char>, Seq<char>)>, gt: Seq<(Seq<char>, Seq<char>)>)
    ensures
        count_where(tool, gt, true) + count_where(tool, gt, false) == tool.len(),
        sample_absent(tool, gt).len() <= 10,
        sample_absent(tool, gt).len() == if count_where(tool, gt, false) < 10 { count_where(tool, gt, false) } else { 10 },
        forall|k: int|
            0 <= k < sample_absent(tool, gt).len() ==> tool.contains(#[trigger] sample_absent(tool, gt)[k])
                && !gt.contains(sample_absent(tool, gt)[k]),
        count_where(tool, tool, false) == 0,
        count_where(tool, tool, true) == tool.len(),
{
    count_where_split(tool, gt);
    count_where_split(tool, tool);
    sample_absent_bounds(tool, gt);
    assert forall|i: int| 0 <= i < tool.len() implies tool.contains(#[trigger] tool[i]) by {}
    count_where_all_inside(tool, tool);
}


/// A caller/callee pair with both ends named and different.
pub open spec fn pair_named(x: (Seq<char>, Seq<char>)) -> bool {
    x.0.len() > 0 && x.1.len() > 0 && x.0 != x.1
}

/// The definitions of document `d`, in the order the pairing reads them.
pub open spec fn sorted_doc_defs(docs: Seq<ScipDocument>, d: int) -> Seq<(SpanV, Seq<char>)> {
    sort_ordered(doc_defs(occs_view(docs[d].occurrences@)), def_after())
}

/// A reference of some document yields pair `x` from the smallest definition
/// that encloses it.
pub open spec fn pair_backed(docs: Seq<ScipDocument>, x: (Seq<char>, Seq<char>)) -> bool {
    exists|d: int, k: int|
        0 <= d < docs.len() && 0 <= k < docs[d].occurrences@.len() && #[trigger] ref_pair(
            sorted_doc_defs(docs, d),
            docs[d].occurrences@[k]@,
        ) == Some(x)
}

proof fn ref_pair_named(defs: Seq<(SpanV, Seq<char>)>, o: ScipOccurrenceV)
    ensures
        ref_pair(defs, o) matches Some(x) ==> pair_named(x),
{
}

proof fn doc_pairs_shape(
    acc: Seq<(Seq<char>, Seq<char>)>,
    defs: Seq<(SpanV, Seq<char>)>,
    occs: Seq<ScipOccurrenceV>,
)
    requires
        forall|i: int, j: int| 0 <= i < j < acc.len() ==> acc[i] != acc[j],
    ensures
        ({
            let r = doc_pairs(acc, defs, occs);
            &&& forall|i: int, j: int| 0 <= i < j < r.len() ==> r[i] != r[j]
            &&& forall|k: int|
                0 <= k < r.len() ==> acc.contains(#[trigger] r[k]) || exists|m: int|
                    0 <= m < occs.len() && #[trigger] ref_pair(defs, occs[m]) == Some(r[k])
        }),
    decreases occs.len(),
{
    if occs.len() > 0 {
        let init = occs.drop_last();
        doc_pairs_shape(acc, defs, init);
        let prev = doc_pairs(acc, defs, init);
        let r = doc_pairs(acc, defs, occs);
        let m0 = occs.len() - 1;
        assert(occs[m0] == occs.last());
        assert forall|k: int| 0 <= k < r.len() implies acc.contains(#[trigger] r[k]) || exists|m: int|
            0 <= m < occs.len() && #[trigger] ref_pair(defs, occs[m]) == Some(r[k]) by {
            if k < prev.len() {
                assert(r[k] == prev[k]);
                if !acc.contains(prev[k]) {
                    let m = choose|m: int| 0 <= m < init.len() && #[trigger] ref_pair(defs, init[m]) == Some(prev[k]);
                    assert(init[m] == occs[m]);
                }
            } else {
                assert(ref_pair(defs, occs[m0]) == Some(r[k]));
            }
        }
        assert forall|i: int, j: int| 0 <= i < j < r.len() implies r[i] != r[j] by {
            if j >= prev.len() {
                assert(!prev.contains(r[j]));
                assert(r[i] == prev[i]);
            }
        }
    }
}

proof fn scip_pairs_shape(docs: Seq<ScipDocument>)
    ensures
        ({
            let r = scip_pairs(docs);
            &&& forall|i: int, j: int| 0 <= i < j < r.len() ==> r[i] != r[j]
            &&& forall|k: int| 0 <= k < r.len() ==> pair_named(#[trigger] r[k]) && pair_backed(docs, r[k])
        }),
    decreases docs.len(),
{
    if docs.len() > 0 {
        let init = docs.drop_last();
        let d0 = docs.len() - 1;
        scip_pairs_shape(init);
        let acc = scip_pairs(init);
        let ov = occs_view(docs.last().occurrences@);
        let defs = sort_ordered(doc_defs(ov), def_after());
        assert(docs[d0] == docs.last());
        assert(defs == sorted_doc_defs(docs, d0));
        doc_pairs_shape(acc, defs, ov);
        let r = scip_pairs(docs);
        assert forall|k: int| 0 <= k < r.len() implies pair_named(#[trigger] r[k]) && pair_backed(docs, r[k]) by {
            if acc.contains(r[k]) {
                let i = choose|i: int| 0 <= i < acc.len() && acc[i] == r[k];
                assert(pair_named(acc[i]) && pair_backed(init, acc[i]));
                let (d, m) = choose|d: int, m: int|
                    0 <= d < init.len() && 0 <= m < init[d].occurrences@.len() && #[trigger] ref_pair(
                        sorted_doc_defs(init, d),
                        init[d].occurrences@[m]@,
                    ) == Some(acc[i]);
                assert(init[d] == docs[d]);
                assert(sorted_doc_defs(init, d) == sorted_doc_defs(docs, d));
                assert(ref_pair(sorted_doc_defs(docs, d), docs[d].occurrences@[m]@) == Some(r[k]));
            } else {
                let m = choose|m: int| 0 <= m < ov.len() && #[trigger] ref_pair(defs, ov[m]) == Some(r[k]);
                assert(ov[m] == docs[d0].occurrences@[m]@);
                ref_pair_named(defs, ov[m]);
                assert(ref_pair(sorted_doc_defs(docs, d0), docs[d0].occurrences@[m]@) == Some(r[k]));
            }
        }
    }
}

/// The pairs read from an index are distinct; each names two different,
/// non-empty symbol tails; and each comes from a reference of some document
/// paired with the smallest definition enclosing it.
pub proof fn edge_pairs_are_named_and_backed(docs: Seq<ScipDocument>)
    ensures
        forall|i: int, j: int| 0 <= i < j < scip_pairs(docs).len() ==> scip_pairs(docs)[i] != scip_pairs(docs)[j],
        forall|k: int|
            0 <= k < scip_pairs(docs).len() ==> pair_named(#[trigger] scip_pairs(docs)[k]) && pair_backed(
                docs,
                scip_pairs(docs)[k],
            ),
{
    scip_pairs_shape(docs);
}


/// The definition a reference is paired with encloses it, and no enclosing
/// definition is smaller.
pub proof fn best_def_is_smallest_enclosing(defs: Seq<(SpanV, Seq<char>)>, l: i32, c: i32)
    ensures
        forall|k: int|
            0 <= k < defs.len() && encloses((#[trigger] defs[k]).0, l, c) ==> span_size(defs[k].0) >= best_def(
                defs,
                l,
                c,
            ).1,
        best_def(defs, l, c).0 matches Some(s) ==> exists|k: int|
            0 <= k < defs.len() && (#[trigger] defs[k]).1 == s && encloses(defs[k].0, l, c) && span_size(defs[k].0)
                == best_def(defs, l, c).1,
    decreases defs.len(),
{
    if defs.len() > 0 {
        let init = defs.drop_last();
        best_def_is_smallest_enclosing(init, l, c);
        let last = defs.len() - 1;
        assert(defs[last] == defs.last());
        assert forall|k: int|
            0 <= k < defs.len() && encloses((#[trigger] defs[k]).0, l, c) implies span_size(defs[k].0) >= best_def(
            defs,
            l,
            c,
        ).1 by {
            if k < last {
                assert(defs[k] == init[k]);
            }
        }
        if best_def(defs, l, c).0 is Some && best_def(defs, l, c) == best_def(init, l, c) {
            let k = choose|k: int|
                0 <= k < init.len() && (#[trigger] init[k]).1 == best_def(init, l, c).0->0 && encloses(init[k].0, l, c)
                    && span_size(init[k].0) == best_def(init, l, c).1;
            assert(defs[k] == init[k]);
        }
    }
}

} // verus!
