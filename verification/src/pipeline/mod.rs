//! The indexing pipeline's logic: which walked files are indexed, swept
//! or gone; the four passes (structure, definitions, calls, routes); and
//! the report of a run.
//!
//! Reindexing is incremental: a file whose content hash matches its stored
//! record is skipped, a modified file's nodes are swept before it is
//! indexed again, and the nodes of a file that is gone are swept.

pub mod cache;
pub mod channels;
pub mod incremental;
pub mod pass1;
pub mod pass2;
pub mod pass3;
pub mod pass4;
pub mod grammars;
pub mod queries;
pub mod syntax;

use vstd::prelude::*;
use crate::language::Language;
use crate::pipeline::channels::FileWork;
use crate::pipeline::incremental::FileStatus;
use crate::pipeline::pass2::{language_of, language_of_path, rel_path, relative_path};
use crate::store::NodeKind;
use crate::text::{push_decimal, spec_decimal, str_eq};

verus! {

/// Counts per node kind, edge counts, the languages seen and the
/// incremental counts of one run.
#[derive(Debug, Default, Clone)]
pub struct IndexReport {
    pub files: u64,
    pub modules: u64,
    pub functions: u64,
    pub classes: u64,
    pub structs: u64,
    pub enums: u64,
    pub traits: u64,
    pub methods: u64,
    /// Call edges in the store.
    pub calls: u64,
    /// Route nodes in the store.
    pub routes: u64,
    /// SCIP reference edges in the store.
    pub scip_edges: u64,
    /// Codes (`Language::code`) of the languages whose files were walked.
    pub languages: Vec<u8>,
    pub unchanged: u64,
    pub modified: u64,
    pub new_files: u64,
    pub deleted: u64,
}

/// How many elements of `s` equal `x`.
pub open spec fn count_of<T>(s: Seq<T>, x: T) -> nat
    decreases s.len(),
{
    if s.len() == 0 {
        0
    } else {
        count_of(s.drop_last(), x) + if s.last() == x {
            1nat
        } else {
            0nat
        }
    }
}

proof fn count_of_bound<T>(s: Seq<T>, x: T)
    ensures
        count_of(s, x) <= s.len(),
    decreases s.len(),
{
    if s.len() > 0 {
        count_of_bound(s.drop_last(), x);
    }
}

fn count_kind(kinds: &Vec<NodeKind>, k: NodeKind) -> (c: u64)
    ensures
        c == count_of(kinds@, k),
{
    let mut c: u64 = 0;
    let mut i: usize = 0;
    assert(kinds@.subrange(0, 0) =~= Seq::<NodeKind>::empty());
    while i < kinds.len()
        invariant
            i <= kinds@.len(),
            c == count_of(kinds@.subrange(0, i as int), k),
        decreases kinds.len() - i,
    {
        let ghost pre = kinds@.subrange(0, (i + 1) as int);
        assert(pre.drop_last() =~= kinds@.subrange(0, i as int));
        proof {
            count_of_bound(kinds@.subrange(0, i as int), k);
        }
        if kinds[i] == k {
            c = c + 1;
        }
        i = i + 1;
    }
    assert(kinds@.subrange(0, kinds@.len() as int) =~= kinds@);
    c
}

fn count_byte(bytes: &Vec<u8>, b: u8) -> (c: u64)
    ensures
        c == count_of(bytes@, b),
{
    let mut c: u64 = 0;
    let mut i: usize = 0;
    assert(bytes@.subrange(0, 0) =~= Seq::<u8>::empty());
    while i < bytes.len()
        invariant
            i <= bytes@.len(),
            c == count_of(bytes@.subrange(0, i as int), b),
        decreases bytes.len() - i,
    {
        let ghost pre = bytes@.subrange(0, (i + 1) as int);
        assert(pre.drop_last() =~= bytes@.subrange(0, i as int));
        proof {
            count_of_bound(bytes@.subrange(0, i as int), b);
        }
        if bytes[i] == b {
            c = c + 1;
        }
        i = i + 1;
    }
    assert(bytes@.subrange(0, bytes@.len() as int) =~= bytes@);
    c
}

/// The report of a run, from the kinds of the stored nodes and the kind
/// bytes of the stored edges.
pub fn count_report(
    node_kinds: &Vec<NodeKind>,
    edge_kinds: &Vec<u8>,
    languages: Vec<u8>,
    unchanged: u64,
    modified: u64,
    new_files: u64,
    deleted: u64,
) -> (r: IndexReport)
    ensures
        r.files == count_of(node_kinds@, NodeKind::File),
        r.modules == count_of(node_kinds@, NodeKind::Module),
        r.functions == count_of(node_kinds@, NodeKind::Function),
        r.classes == count_of(node_kinds@, NodeKind::Class),
        r.structs == count_of(node_kinds@, NodeKind::Struct),
        r.enums == count_of(node_kinds@, NodeKind::Enum),
        r.traits == count_of(node_kinds@, NodeKind::Trait),
        r.methods == count_of(node_kinds@, NodeKind::Method),
        r.routes == count_of(node_kinds@, NodeKind::Route),
        r.calls == count_of(edge_kinds@, 0u8),
        r.scip_edges == count_of(edge_kinds@, 2u8),
        r.languages@ == languages@,
        r.unchanged == unchanged,
        r.modified == modified,
        r.new_files == new_files,
        r.deleted == deleted,
{
    IndexReport {
        files: count_kind(node_kinds, NodeKind::File),
        modules: count_kind(node_kinds, NodeKind::Module),
        functions: count_kind(node_kinds, NodeKind::Function),
        classes: count_kind(node_kinds, NodeKind::Class),
        structs: count_kind(node_kinds, NodeKind::Struct),
        enums: count_kind(node_kinds, NodeKind::Enum),
        traits: count_kind(node_kinds, NodeKind::Trait),
        methods: count_kind(node_kinds, NodeKind::Method),
        calls: count_byte(edge_kinds, 0),
        routes: count_kind(node_kinds, NodeKind::Route),
        scip_edges: count_byte(edge_kinds, 2),
        languages,
        unchanged,
        modified,
        new_files,
        deleted,
    }
}

impl IndexReport {
    pub open spec fn spec_total_nodes(&self) -> int {
        self.files + self.modules + self.functions + self.classes + self.structs + self.enums + self.traits
            + self.methods + self.routes
    }

    /// Whether a file of `lang` was walked; SCIP ingest skips indexers of
    /// languages absent from the repository.
    pub fn has_language(&self, lang: Language) -> (b: bool)
        ensures
            b == self.languages@.contains(lang.spec_code()),
    {
        let c = lang.code();
        let mut i: usize = 0;
        while i < self.languages.len()
            invariant
                i <= self.languages@.len(),
                c == lang.spec_code(),
                forall|k: int| 0 <= k < i ==> self.languages@[k] != c,
            decreases self.languages.len() - i,
        {
            if self.languages[i] == c {
                assert(self.languages@[i as int] == lang.spec_code());
                return true;
            }
            i = i + 1;
        }
        false
    }

    /// All nodes: files, modules, functions, classes, structs, enums,
    /// traits, methods and routes.
    pub fn total_nodes(&self) -> (n: u64)
        requires
            self.spec_total_nodes() <= u64::MAX,
        ensures
            n == self.spec_total_nodes(),
    {
        self.files + self.modules + self.functions + self.classes + self.structs + self.enums + self.traits
            + self.methods + self.routes
    }
}

/// The Graphviz text of a report.
pub open spec fn spec_dot(r: IndexReport, root: Seq<char>) -> Seq<char> {
    "digraph grafy {\n"@ + "  rankdir=LR;\n"@ + "  root [label=\""@ + root + "\"];\n"@ + "  nodes [label=\"files="@
        + spec_decimal(r.files as nat) + " modules="@ + spec_decimal(r.modules as nat) + " functions="@
        + spec_decimal(r.functions as nat) + " classes="@ + spec_decimal(r.classes as nat) + " structs="@
        + spec_decimal(r.structs as nat) + " enums="@ + spec_decimal(r.enums as nat) + " traits="@
        + spec_decimal(r.traits as nat) + " methods="@ + spec_decimal(r.methods as nat) + "\"];\n"@
        + "  root -> nodes;\n"@ + "}\n"@
}

/// A minimal Graphviz rendering of a report: the root and its node counts.
pub fn to_dot(report: &IndexReport, root: &str) -> (s: String)
    ensures
        s@ == spec_dot(*report, root@),
{
    let mut out = String::new();
    out.append("digraph grafy {\n");
    out.append("  rankdir=LR;\n");
    out.append("  root [label=\"");
    out.append(root);
    out.append("\"];\n");
    out.append("  nodes [label=\"files=");
    push_decimal(&mut out, report.files);
    out.append(" modules=");
    push_decimal(&mut out, report.modules);
    out.append(" functions=");
    push_decimal(&mut out, report.functions);
    out.append(" classes=");
    push_decimal(&mut out, report.classes);
    out.append(" structs=");
    push_decimal(&mut out, report.structs);
    out.append(" enums=");
    push_decimal(&mut out, report.enums);
    out.append(" traits=");
    push_decimal(&mut out, report.traits);
    out.append(" methods=");
    push_decimal(&mut out, report.methods);
    out.append("\"];\n");
    out.append("  root -> nodes;\n");
    out.append("}\n");
    out
}

/// The relative path and language of a walked file, or `None` when its
/// extension names no language.
pub open spec fn spec_walk_file(root: Seq<char>, path: Seq<char>) -> Option<(Seq<char>, Language)> {
    match language_of_path(path) {
        Some(l) => Some((rel_path(path, root), l)),
        None => None,
    }
}

/// Whether the walk indexes a file, and under which relative path.
pub fn walk_file(root: &str, path: &str) -> (r: Option<(String, Language)>)
    ensures
        match r {
            Some((p, l)) => spec_walk_file(root@, path@) == Some((p@, l)),
            None => spec_walk_file(root@, path@) is None,
        },
{
    match language_of(path) {
        Some(l) => Some((relative_path(path, root), l)),
        None => None,
    }
}

/// A walked file with its classification.
pub struct WalkEntry {
    pub path: String,
    pub rel_path: String,
    pub language: Language,
    pub status: FileStatus,
}

pub struct WalkEntryV {
    pub path: Seq<char>,
    pub rel_path: Seq<char>,
    pub language: Language,
    pub status: FileStatus,
}

impl View for WalkEntry {
    type V = WalkEntryV;

    open spec fn view(&self) -> WalkEntryV {
        WalkEntryV { path: self.path@, rel_path: self.rel_path@, language: self.language, status: self.status }
    }
}

pub open spec fn walk_view(v: Seq<WalkEntry>) -> Seq<WalkEntryV> {
    v.map_values(|e: WalkEntry| e@)
}

/// What a run does with the walked files.
pub struct WalkPlan {
    pub new_count: u64,
    pub unchanged_count: u64,
    pub modified_count: u64,
    /// New and modified files, for pass 1, in walk order.
    pub work: Vec<FileWork>,
    /// Modified files whose nodes are swept first.
    pub to_sweep: Vec<String>,
    /// Previously stored files that the walk did not see.
    pub deleted: Vec<String>,
    /// Codes of the languages walked, each once.
    pub languages_seen: Vec<u8>,
}

pub open spec fn statuses(w: Seq<WalkEntryV>) -> Seq<FileStatus> {
    w.map_values(|e: WalkEntryV| e.status)
}

/// New and modified files, as pass-1 work.
pub open spec fn plan_work(w: Seq<WalkEntryV>) -> Seq<(Seq<char>, Language)>
    decreases w.len(),
{
    if w.len() == 0 {
        Seq::empty()
    } else {
        let prev = plan_work(w.drop_last());
        if w.last().status == FileStatus::Unchanged {
            prev
        } else {
            prev.push((w.last().path, w.last().language))
        }
    }
}

/// Relative paths of the modified files.
pub open spec fn plan_sweep(w: Seq<WalkEntryV>) -> Seq<Seq<char>>
    decreases w.len(),
{
    if w.len() == 0 {
        Seq::empty()
    } else {
        let prev = plan_sweep(w.drop_last());
        if w.last().status == FileStatus::Modified {
            prev.push(w.last().rel_path)
        } else {
            prev
        }
    }
}

/// Language codes of the walk, each once, in order of first appearance.
pub open spec fn plan_languages(w: Seq<WalkEntryV>) -> Seq<u8>
    decreases w.len(),
{
    if w.len() == 0 {
        Seq::empty()
    } else {
        let prev = plan_languages(w.drop_last());
        let c = w.last().language.spec_code();
        if prev.contains(c) {
            prev
        } else {
            prev.push(c)
        }
    }
}

/// Stored paths that no walked file has.
pub open spec fn plan_deleted(prev: Seq<Seq<char>>, w: Seq<WalkEntryV>) -> Seq<Seq<char>> {
    prev.filter(|p: Seq<char>| !(exists|i: int| 0 <= i < w.len() && (#[trigger] w[i]).rel_path == p))
}

pub open spec fn work_view(v: Seq<FileWork>) -> Seq<(Seq<char>, Language)> {
    v.map_values(|f: FileWork| (f.path@, f.language))
}

pub open spec fn strings_of(v: Seq<String>) -> Seq<Seq<char>> {
    v.map_values(|s: String| s@)
}

fn walked(w: &Vec<WalkEntry>, p: &str) -> (b: bool)
    ensures
        b == exists|i: int| 0 <= i < w@.len() && (#[trigger] w@[i]).rel_path@ == p@,
{
    let mut i: usize = 0;
    while i < w.len()
        invariant
            i <= w@.len(),
            forall|k: int| 0 <= k < i ==> (#[trigger] w@[k]).rel_path@ != p@,
        decreases w.len() - i,
    {
        if str_eq(w[i].rel_path.as_str(), p) {
            return true;
        }
        i = i + 1;
    }
    false
}

fn has_code(v: &Vec<u8>, c: u8) -> (b: bool)
    ensures
        b == v@.contains(c),
{
    let mut i: usize = 0;
    while i < v.len()
        invariant
            i <= v@.len(),
            forall|k: int| 0 <= k < i ==> v@[k] != c,
        decreases v.len() - i,
    {
        if v[i] == c {
            return true;
        }
        i = i + 1;
    }
    false
}

/// Plans a run from the classified walk and the relative paths stored by
/// the previous run.
pub fn plan_index(walk: &Vec<WalkEntry>, prev_paths: &Vec<String>) -> (p: WalkPlan)
    ensures
        p.new_count == count_of(statuses(walk_view(walk@)), FileStatus::New),
        p.unchanged_count == count_of(statuses(walk_view(walk@)), FileStatus::Unchanged),
        p.modified_count == count_of(statuses(walk_view(walk@)), FileStatus::Modified),
        work_view(p.work@) == plan_work(walk_view(walk@)),
        strings_of(p.to_sweep@) == plan_sweep(walk_view(walk@)),
        strings_of(p.deleted@) == plan_deleted(strings_of(prev_paths@), walk_view(walk@)),
        p.languages_seen@ == plan_languages(walk_view(walk@)),
{
    let ghost wv = walk_view(walk@);
    let mut new_count: u64 = 0;
    let mut unchanged_count: u64 = 0;
    let mut modified_count: u64 = 0;
    let mut work: Vec<FileWork> = Vec::new();
    let mut to_sweep: Vec<String> = Vec::new();
    let mut languages_seen: Vec<u8> = Vec::new();
    let mut i: usize = 0;
    assert(wv.subrange(0, 0) =~= Seq::<WalkEntryV>::empty());
    while i < walk.len()
        invariant
            i <= walk@.len(),
            wv == walk_view(walk@),
            new_count == count_of(statuses(wv.subrange(0, i as int)), FileStatus::New),
            unchanged_count == count_of(statuses(wv.subrange(0, i as int)), FileStatus::Unchanged),
            modified_count == count_of(statuses(wv.subrange(0, i as int)), FileStatus::Modified),
            work_view(work@) == plan_work(wv.subrange(0, i as int)),
            strings_of(to_sweep@) == plan_sweep(wv.subrange(0, i as int)),
            languages_seen@ == plan_languages(wv.subrange(0, i as int)),
        decreases walk.len() - i,
    {
        let ghost pre = wv.subrange(0, (i + 1) as int);
        assert(pre.drop_last() =~= wv.subrange(0, i as int));
        assert(statuses(pre).drop_last() =~= statuses(wv.subrange(0, i as int)));
        let e = &walk[i];
        assert(pre.last() == e@);
        proof {
            count_of_bound(statuses(wv.subrange(0, i as int)), FileStatus::New);
            count_of_bound(statuses(wv.subrange(0, i as int)), FileStatus::Unchanged);
            count_of_bound(statuses(wv.subrange(0, i as int)), FileStatus::Modified);
        }
        let c = e.language.code();
        if !has_code(&languages_seen, c) {
            languages_seen.push(c);
        }
        match e.status {
            FileStatus::Unchanged => {
                unchanged_count = unchanged_count + 1;
            },
            FileStatus::New => {
                new_count = new_count + 1;
                let ghost before = work_view(work@);
                work.push(FileWork { path: e.path.clone(), language: e.language });
                assert(work_view(work@) =~= before.push((e.path@, e.language)));
            },
            FileStatus::Modified => {
                modified_count = modified_count + 1;
                let ghost sb = strings_of(to_sweep@);
                to_sweep.push(e.rel_path.clone());
                assert(strings_of(to_sweep@) =~= sb.push(e.rel_path@));
                let ghost before = work_view(work@);
                work.push(FileWork { path: e.path.clone(), language: e.language });
                assert(work_view(work@) =~= before.push((e.path@, e.language)));
            },
        }
        i = i + 1;
    }
    assert(wv.subrange(0, wv.len() as int) =~= wv);
    let ghost pv = strings_of(prev_paths@);
    let ghost gone = |p: Seq<char>| !(exists|i: int| 0 <= i < wv.len() && (#[trigger] wv[i]).rel_path == p);
    let mut deleted: Vec<String> = Vec::new();
    let mut k: usize = 0;
    proof {
        reveal(Seq::filter);
    }
    assert(pv.subrange(0, 0).filter(gone) =~= Seq::<Seq<char>>::empty());
    while k < prev_paths.len()
        invariant
            k <= prev_paths@.len(),
            wv == walk_view(walk@),
            pv == strings_of(prev_paths@),
            gone == |p: Seq<char>| !(exists|i: int| 0 <= i < wv.len() && (#[trigger] wv[i]).rel_path == p),
            strings_of(deleted@) == pv.subrange(0, k as int).filter(gone),
        decreases prev_paths.len() - k,
    {
        let ghost pre = pv.subrange(0, (k + 1) as int);
        assert(pre.drop_last() =~= pv.subrange(0, k as int));
        let p = prev_paths[k].as_str();
        assert(pre.last() == p@);
        let seen = walked(walk, p);
        assert(seen == exists|i: int| 0 <= i < wv.len() && (#[trigger] wv[i]).rel_path == p@) by {
            if seen {
                let i = choose|i: int| 0 <= i < walk@.len() && (#[trigger] walk@[i]).rel_path@ == p@;
                assert(wv[i].rel_path == p@);
            }
            if exists|i: int| 0 <= i < wv.len() && (#[trigger] wv[i]).rel_path == p@ {
                let i = choose|i: int| 0 <= i < wv.len() && (#[trigger] wv[i]).rel_path == p@;
                assert(walk@[i].rel_path@ == p@);
            }
        }
        assert(gone(p@) == !seen);
        proof {
            reveal(Seq::filter);
        }
        assert(pre.filter(gone) == if gone(pre.last()) {
            pre.drop_last().filter(gone).push(pre.last())
        } else {
            pre.drop_last().filter(gone)
        });
        if !seen {
            let ghost before = strings_of(deleted@);
            deleted.push(String::from_str(p));
            assert(strings_of(deleted@) =~= before.push(p@));
        }
        k = k + 1;
    }
    assert(pv.subrange(0, pv.len() as int) =~= pv);
    WalkPlan { new_count, unchanged_count, modified_count, work, to_sweep, deleted, languages_seen }
}

impl WalkPlan {
    /// Nothing to index and nothing to sweep: the run only tallies.
    pub fn nothing_changed(&self) -> (b: bool)
        ensures
            b == (self.work@.len() == 0 && self.deleted@.len() == 0 && self.to_sweep@.len() == 0),
    {
        self.work.len() == 0 && self.deleted.len() == 0 && self.to_sweep.len() == 0
    }
}

/// Every walked file is exactly one of new, unchanged or modified; new
/// and modified files are the ones indexed, and modified files are the
/// ones swept first.
pub proof fn walk_is_partitioned(w: Seq<WalkEntryV>)
    ensures
        count_of(statuses(w), FileStatus::New) + count_of(statuses(w), FileStatus::Unchanged) + count_of(
            statuses(w),
            FileStatus::Modified,
        ) == w.len(),
        plan_work(w).len() == count_of(statuses(w), FileStatus::New) + count_of(statuses(w), FileStatus::Modified),
        plan_sweep(w).len() == count_of(statuses(w), FileStatus::Modified),
    decreases w.len(),
{
    if w.len() > 0 {
        walk_is_partitioned(w.drop_last());
        assert(statuses(w).drop_last() =~= statuses(w.drop_last()));
    }
}

/// Indexing again when every walked file is unchanged and no stored file
/// has gone plans nothing: no file to parse, none to sweep, none deleted.
pub proof fn unchanged_repository_plans_nothing(prev: Seq<Seq<char>>, w: Seq<WalkEntryV>)
    requires
        forall|i: int| 0 <= i < w.len() ==> (#[trigger] w[i]).status == FileStatus::Unchanged,
        forall|j: int| #![trigger prev[j]] 0 <= j < prev.len() ==> exists|i: int| 0 <= i < w.len() && (#[trigger] w[i]).rel_path == prev[j],
    ensures
        plan_work(w).len() == 0,
        plan_sweep(w).len() == 0,
        plan_deleted(prev, w).len() == 0,
{
    unchanged_walk_has_no_work(w);
    let pred = |p: Seq<char>| !(exists|i: int| 0 <= i < w.len() && (#[trigger] w[i]).rel_path == p);
    assert(plan_deleted(prev, w) == prev.filter(pred));
    if prev.filter(pred).len() > 0 {
        let x = prev.filter(pred)[0];
        prev.lemma_filter_pred(pred, 0);
        assert(prev.filter(pred).contains(x));
        prev.lemma_filter_contains_rev(pred, x);
        let j = choose|j: int| 0 <= j < prev.len() && prev[j] == x;
        assert(exists|i: int| 0 <= i < w.len() && (#[trigger] w[i]).rel_path == prev[j]);
    }
}

proof fn unchanged_walk_has_no_work(w: Seq<WalkEntryV>)
    requires
        forall|i: int| 0 <= i < w.len() ==> (#[trigger] w[i]).status == FileStatus::Unchanged,
    ensures
        plan_work(w).len() == 0,
        plan_sweep(w).len() == 0,
    decreases w.len(),
{
    if w.len() > 0 {
        assert(w.last().status == FileStatus::Unchanged);
        unchanged_walk_has_no_work(w.drop_last());
    }
}

} // verus!
