//! Pass 3 — the heuristic call resolver.
//!
//! All definitions are gathered into a symbol table first: FQN to node id,
//! last FQN segment to node ids, and each file's definitions. Then each
//! call site of a file is resolved.
//!
//! - Family A (Python, TypeScript, JavaScript, TSX, PHP, Lua): module scope
//!   (same file, then any file by short name), then import scope. The first
//!   match wins.
//! - Family B (Rust, Go, Scala, Java, C#, C++): module scope, import/use
//!   scope, the receiver's type name, then every definition with that short
//!   name (trait or interface dispatch; this overshoots by design).
//!
//! Every call site is attributed to every definition of its file; an edge
//! is emitted once per (caller, callee) pair and never as a self-loop.

use vstd::prelude::*;
use crate::language::Language;
use crate::multimap::{StrMultiMap, values_at};
use crate::pipeline::channels::{DefinitionEvent, DefinitionEventV, EdgeWriteEvent, StructureKind, definitions_view};
use crate::pipeline::pass2::{language_of, language_of_path, rel_path, relative_path};
use crate::store::{NodeKind, node_id, spec_node_id};
use crate::text::{
    chars_of, chars_slice, has_prefix, is_unicode_ws, str_eq, str_starts_with, string_from_chars, trim, trim_chars,
};

verus! {

/// The two resolution families.
#[derive(Debug, Clone, Copy, PartialEq, Eq, Structural)]
pub enum LangFamily {
    /// Dynamic or lexical: Python, TypeScript, JavaScript, TSX, PHP, Lua.
    A,
    /// Lexical with explicit types: Rust, Go, Scala, Java, C#, C++.
    B,
}

pub open spec fn spec_lang_family(lang: Language) -> LangFamily {
    match lang {
        Language::Python | Language::TypeScript | Language::JavaScript | Language::Tsx | Language::Php
        | Language::Lua => LangFamily::A,
        Language::Rust | Language::Go | Language::Scala | Language::Java | Language::CSharp
        | Language::Cpp => LangFamily::B,
    }
}

/// The resolution family of a language.
pub fn lang_family(lang: Language) -> (r: LangFamily)
    ensures
        r == spec_lang_family(lang),
{
    match lang {
        Language::Python | Language::TypeScript | Language::JavaScript | Language::Tsx | Language::Php
        | Language::Lua => LangFamily::A,
        Language::Rust | Language::Go | Language::Scala | Language::Java | Language::CSharp
        | Language::Cpp => LangFamily::B,
    }
}

/// A character that separates FQN segments.
pub open spec fn is_segment_sep(c: char) -> bool {
    c == ':' || c == '.' || c == '/' || c == '\\'
}

/// What follows the last segment separator (all of `s` if none).
pub open spec fn spec_last_segment(s: Seq<char>) -> Seq<char>
    decreases s.len(),
{
    if s.len() == 0 {
        s
    } else if is_segment_sep(s.last()) {
        Seq::empty()
    } else {
        spec_last_segment(s.drop_last()).push(s.last())
    }
}

/// The last segment of an FQN (separators `::`, `.`, `/`, `\`).
pub fn last_segment(fqn: &str) -> (r: String)
    ensures
        r@ == spec_last_segment(fqn@),
{
    let t = chars_of(fqn);
    let mut b: usize = t.len();
    assert(t@.subrange(0, t@.len() as int) =~= t@);
    assert(t@.subrange(t@.len() as int, t@.len() as int) =~= Seq::<char>::empty());
    assert(spec_last_segment(t@) =~= spec_last_segment(t@.subrange(0, t@.len() as int)) + t@.subrange(
        t@.len() as int,
        t@.len() as int,
    ));
    while b > 0 && !(t[b - 1] == ':' || t[b - 1] == '.' || t[b - 1] == '/' || t[b - 1] == '\\')
        invariant
            b <= t@.len(),
            spec_last_segment(t@) == spec_last_segment(t@.subrange(0, b as int)) + t@.subrange(b as int, t@.len() as int),
        decreases b,
    {
        let ghost pre = t@.subrange(0, b as int);
        assert(pre.drop_last() =~= t@.subrange(0, b - 1));
        assert(t@.subrange(b - 1, t@.len() as int) =~= seq![t@[b - 1]] + t@.subrange(b as int, t@.len() as int));
        assert(spec_last_segment(pre.drop_last()).push(pre.last()) + t@.subrange(b as int, t@.len() as int)
            =~= spec_last_segment(pre.drop_last()) + t@.subrange(b - 1, t@.len() as int));
        b = b - 1;
    }
    assert(spec_last_segment(t@.subrange(0, b as int)) =~= Seq::<char>::empty());
    let n = t.len();
    let out = chars_slice(&t, b, n);
    assert(out@ =~= spec_last_segment(t@));
    string_from_chars(out.as_slice())
}

/// The node kind a structure kind is stored as.
pub fn structure_kind_to_node_kind(k: StructureKind) -> (r: NodeKind)
    ensures
        r == crate::pipeline::pass1::spec_node_kind_of(k),
{
    match k {
        StructureKind::Module => NodeKind::Module,
        StructureKind::Function => NodeKind::Function,
        StructureKind::Class => NodeKind::Class,
        StructureKind::Struct => NodeKind::Struct,
        StructureKind::Enum => NodeKind::Enum,
        StructureKind::Trait => NodeKind::Trait,
        StructureKind::Method => NodeKind::Method,
    }
}

pub open spec fn is_quote(c: char) -> bool {
    c == '"' || c == '\'' || c == '`'
}

/// `t` starts and ends with the same quote character.
pub open spec fn quoted(t: Seq<char>) -> bool {
    t.len() >= 2 && is_quote(t[0]) && t.last() == t[0]
}

/// `s` trimmed, without one pair of surrounding quotes.
pub open spec fn spec_strip_quotes(s: Seq<char>) -> Seq<char> {
    let t = trim(s);
    if quoted(t) {
        t.subrange(1, t.len() - 1)
    } else {
        t
    }
}

/// Strips whitespace, then one pair of matching quotes (`"`, `'` or a
/// backtick). A lone quote character has no inner text to slice out, so
/// it is left out.
pub fn strip_quotes(s: &str) -> (r: String)
    requires
        !(trim(s@).len() == 1 && is_quote(trim(s@)[0])),
    ensures
        r@ == spec_strip_quotes(s@),
{
    let cs = chars_of(s);
    let t = trim_chars(&cs);
    let n = t.len();
    if n >= 2 && (t[0] == '"' || t[0] == '\'' || t[0] == '`') && t[n - 1] == t[0] {
        let inner = chars_slice(&t, 1, n - 1);
        string_from_chars(inner.as_slice())
    } else {
        string_from_chars(t.as_slice())
    }
}

/// The node identifier of a definition.
pub open spec fn def_id(root: Seq<char>, e: DefinitionEventV) -> u64 {
    spec_node_id(
        rel_path(e.file_path, root),
        e.fqn,
        crate::pipeline::pass1::spec_node_kind_of(e.kind),
        e.byte_start as u32,
    )
}

/// FQN to node id (a later definition replaces an earlier one).
pub open spec fn fqn_table(root: Seq<char>, es: Seq<DefinitionEventV>) -> Map<Seq<char>, Seq<u64>>
    decreases es.len(),
{
    if es.len() == 0 {
        Map::empty()
    } else {
        fqn_table(root, es.drop_last()).insert(es.last().fqn, seq![def_id(root, es.last())])
    }
}

/// Short name to node ids, in definition order.
pub open spec fn short_table(root: Seq<char>, es: Seq<DefinitionEventV>) -> Map<Seq<char>, Seq<u64>>
    decreases es.len(),
{
    if es.len() == 0 {
        Map::empty()
    } else {
        let m = short_table(root, es.drop_last());
        let k = spec_last_segment(es.last().fqn);
        m.insert(k, values_at(m, k).push(def_id(root, es.last())))
    }
}

/// File path to the positions of its definitions, in definition order.
pub open spec fn file_table(es: Seq<DefinitionEventV>) -> Map<Seq<char>, Seq<usize>>
    decreases es.len(),
{
    if es.len() == 0 {
        Map::empty()
    } else {
        let m = file_table(es.drop_last());
        let k = es.last().file_path;
        m.insert(k, values_at(m, k).push((es.len() - 1) as usize))
    }
}

/// The symbol table as values.
pub struct SymbolTableV {
    pub fqn: Map<Seq<char>, Seq<u64>>,
    pub short: Map<Seq<char>, Seq<u64>>,
    pub files: Map<Seq<char>, Seq<usize>>,
    pub defs: Seq<(Seq<char>, u64)>,
}

/// The table built from `es`.
pub open spec fn spec_symbol_table(root: Seq<char>, es: Seq<DefinitionEventV>) -> SymbolTableV {
    SymbolTableV {
        fqn: fqn_table(root, es),
        short: short_table(root, es),
        files: file_table(es),
        defs: es.map_values(|e: DefinitionEventV| (e.fqn, def_id(root, e))),
    }
}

/// Definitions gathered once from all definition events.
pub struct SymbolTable {
    fqn_to_id: StrMultiMap<u64>,
    short_name_index: StrMultiMap<u64>,
    file_defs: StrMultiMap<usize>,
    defs: Vec<(String, u64)>,
}

pub open spec fn defs_view(v: Seq<(String, u64)>) -> Seq<(Seq<char>, u64)> {
    v.map_values(|d: (String, u64)| (d.0@, d.1))
}

impl View for SymbolTable {
    type V = SymbolTableV;

    closed spec fn view(&self) -> SymbolTableV {
        SymbolTableV {
            fqn: self.fqn_to_id@,
            short: self.short_name_index@,
            files: self.file_defs@,
            defs: defs_view(self.defs@),
        }
    }
}

/// Every file position points into the definitions.
pub open spec fn table_wf(t: SymbolTableV) -> bool {
    forall|f: Seq<char>, i: int|
        t.files.contains_key(f) && 0 <= i < t.files[f].len() ==> (#[trigger] t.files[f][i]) < t.defs.len()
}

/// The first definition of a file whose last segment is `short`.
pub open spec fn first_local(defs: Seq<(Seq<char>, u64)>, idx: Seq<usize>, short: Seq<char>) -> Option<u64>
    decreases idx.len(),
{
    if idx.len() == 0 {
        None
    } else if spec_last_segment(defs[idx[0] as int].0) == short {
        Some(defs[idx[0] as int].1)
    } else {
        first_local(defs, idx.drop_first(), short)
    }
}

/// Module scope: the same file's definitions first, then the first
/// definition anywhere with that short name.
pub open spec fn spec_resolve_short(t: SymbolTableV, short: Seq<char>, file: Seq<char>) -> Option<u64> {
    let local = if t.files.contains_key(file) {
        first_local(t.defs, t.files[file], short)
    } else {
        None
    };
    match local {
        Some(id) => Some(id),
        None => if t.short.contains_key(short) && t.short[short].len() > 0 {
            Some(t.short[short][0])
        } else {
            None
        },
    }
}

/// The node of a fully-qualified name.
pub open spec fn spec_resolve_fqn(t: SymbolTableV, fqn: Seq<char>) -> Option<u64> {
    if t.fqn.contains_key(fqn) && t.fqn[fqn].len() > 0 {
        Some(t.fqn[fqn][0])
    } else {
        None
    }
}

/// All definitions with this short name.
pub open spec fn spec_all_by_short(t: SymbolTableV, short: Seq<char>) -> Seq<u64> {
    values_at(t.short, short)
}

pub open spec fn or_else(a: Option<u64>, b: Option<u64>) -> Option<u64> {
    match a {
        Some(x) => Some(x),
        None => b,
    }
}

/// The node of `prefix + sep + name`.
pub open spec fn joined(t: SymbolTableV, prefix: Seq<char>, sep: Seq<char>, name: Seq<char>) -> Option<u64> {
    spec_resolve_fqn(t, prefix + sep + name)
}

/// A call site: the called name and, for a method call, the receiver.
pub struct CallSite {
    pub name: String,
    pub receiver: Option<String>,
}

/// An import: the local name and the module it comes from.
pub struct ImportBinding {
    pub name: String,
    pub module: String,
}

pub type CallSiteV = (Seq<char>, Option<Seq<char>>);

impl View for CallSite {
    type V = CallSiteV;

    open spec fn view(&self) -> CallSiteV {
        (
            self.name@,
            match self.receiver {
                Some(r) => Some(r@),
                None => None,
            },
        )
    }
}

impl View for ImportBinding {
    type V = (Seq<char>, Seq<char>);

    open spec fn view(&self) -> (Seq<char>, Seq<char>) {
        (self.name@, self.module@)
    }
}

pub open spec fn imports_view(v: Seq<ImportBinding>) -> Seq<(Seq<char>, Seq<char>)> {
    v.map_values(|b: ImportBinding| b@)
}

pub open spec fn sites_view(v: Seq<CallSite>) -> Seq<CallSiteV> {
    v.map_values(|s: CallSite| s@)
}

/// Import scope of family A: for each import bringing `name` in, try the
/// module joined to the name by `.`, `/`, `::`, `\`, then the module's
/// last segment joined by `.`, `/`, then the name alone.
pub open spec fn family_a_imports(t: SymbolTableV, imports: Seq<(Seq<char>, Seq<char>)>, name: Seq<char>) -> Option<u64>
    decreases imports.len(),
{
    if imports.len() == 0 {
        None
    } else {
        let (bn, m) = imports[0];
        let rest = family_a_imports(t, imports.drop_first(), name);
        if bn == name {
            let s = spec_last_segment(m);
            or_else(
                joined(t, m, "."@, name),
                or_else(
                    joined(t, m, "/"@, name),
                    or_else(
                        joined(t, m, "::"@, name),
                        or_else(
                            joined(t, m, "\\"@, name),
                            or_else(
                                joined(t, s, "."@, name),
                                or_else(joined(t, s, "/"@, name), or_else(spec_resolve_fqn(t, name), rest)),
                            ),
                        ),
                    ),
                ),
            )
        } else {
            rest
        }
    }
}

/// Import scope of family B: for each import bringing `name` in, try the
/// module joined to the name by `::`, `.`, `/`, `\`, then the name alone.
pub open spec fn family_b_imports(t: SymbolTableV, imports: Seq<(Seq<char>, Seq<char>)>, name: Seq<char>) -> Option<u64>
    decreases imports.len(),
{
    if imports.len() == 0 {
        None
    } else {
        let (bn, m) = imports[0];
        let rest = family_b_imports(t, imports.drop_first(), name);
        if bn == name {
            or_else(
                joined(t, m, "::"@, name),
                or_else(
                    joined(t, m, "."@, name),
                    or_else(
                        joined(t, m, "/"@, name),
                        or_else(joined(t, m, "\\"@, name), or_else(spec_resolve_fqn(t, name), rest)),
                    ),
                ),
            )
        } else {
            rest
        }
    }
}

pub open spec fn one_or_none(o: Option<u64>) -> Seq<u64> {
    match o {
        Some(x) => seq![x],
        None => Seq::empty(),
    }
}

/// The callees of a call site in family A.
pub open spec fn spec_family_a(t: SymbolTableV, site: CallSiteV, file: Seq<char>, imports: Seq<(Seq<char>, Seq<char>)>) -> Seq<u64> {
    one_or_none(or_else(spec_resolve_short(t, site.0, file), family_a_imports(t, imports, site.0)))
}

/// The callees of a call site in family B.
pub open spec fn spec_family_b(t: SymbolTableV, site: CallSiteV, file: Seq<char>, imports: Seq<(Seq<char>, Seq<char>)>) -> Seq<u64> {
    let named = or_else(spec_resolve_short(t, site.0, file), family_b_imports(t, imports, site.0));
    let by_receiver = match site.1 {
        Some(r) => {
            let s = spec_last_segment(r);
            or_else(joined(t, s, "::"@, site.0), or_else(joined(t, s, "."@, site.0), joined(t, s, "/"@, site.0)))
        },
        None => None,
    };
    match or_else(named, by_receiver) {
        Some(x) => seq![x],
        None => spec_all_by_short(t, site.0),
    }
}

/// The callees of a call site.
pub open spec fn spec_resolve_call(
    t: SymbolTableV,
    site: CallSiteV,
    file: Seq<char>,
    lang: Language,
    imports: Seq<(Seq<char>, Seq<char>)>,
) -> Seq<u64> {
    match spec_lang_family(lang) {
        LangFamily::A => spec_family_a(t, site, file, imports),
        LangFamily::B => spec_family_b(t, site, file, imports),
    }
}

impl SymbolTable {
    pub closed spec fn wf(&self) -> bool {
        &&& self.fqn_to_id.wf()
        &&& self.short_name_index.wf()
        &&& self.file_defs.wf()
        &&& table_wf(self@)
    }

    /// Builds the table from all definition events.
    pub fn build(events: &Vec<DefinitionEvent>, root: &str) -> (t: SymbolTable)
        ensures
            t.wf(),
            t@ == spec_symbol_table(root@, definitions_view(events@)),
    {
        let ghost ev = definitions_view(events@);
        let mut fqn_to_id: StrMultiMap<u64> = StrMultiMap::new();
        let mut short_name_index: StrMultiMap<u64> = StrMultiMap::new();
        let mut file_defs: StrMultiMap<usize> = StrMultiMap::new();
        let mut defs: Vec<(String, u64)> = Vec::new();
        let mut i: usize = 0;
        assert(ev.subrange(0, 0) =~= Seq::<DefinitionEventV>::empty());
        while i < events.len()
            invariant
                i <= events@.len(),
                ev == definitions_view(events@),
                fqn_to_id.wf(),
                short_name_index.wf(),
                file_defs.wf(),
                fqn_to_id@ == fqn_table(root@, ev.subrange(0, i as int)),
                short_name_index@ == short_table(root@, ev.subrange(0, i as int)),
                file_defs@ == file_table(ev.subrange(0, i as int)),
                defs_view(defs@) == ev.subrange(0, i as int).map_values(|e: DefinitionEventV| (e.fqn, def_id(root@, e))),
                forall|f: Seq<char>, k: int|
                    file_defs@.contains_key(f) && 0 <= k < file_defs@[f].len() ==> (#[trigger] file_defs@[f][k]) < i,
            decreases events.len() - i,
        {
            let ev_i = &events[i];
            let ghost pre = ev.subrange(0, (i + 1) as int);
            assert(pre.drop_last() =~= ev.subrange(0, i as int));
            assert(pre.last() == ev_i@);
            let rel = relative_path(ev_i.file_path.as_str(), root);
            let kind = structure_kind_to_node_kind(ev_i.kind);
            let id = node_id(rel.as_str(), ev_i.fqn.as_str(), kind, ev_i.byte_start as u32);
            assert(id == def_id(root@, ev_i@));
            let _old = fqn_to_id.take(ev_i.fqn.as_str());
            let mut one: Vec<u64> = Vec::new();
            one.push(id);
            fqn_to_id.put(ev_i.fqn.as_str(), one);
            proof {
                let m = fqn_table(root@, ev.subrange(0, i as int));
                assert(fqn_to_id@ =~= m.insert(ev_i.fqn@, seq![id]));
            }
            let short = last_segment(ev_i.fqn.as_str());
            short_name_index.push(short.as_str(), id);
            let ghost fd_before = file_defs@;
            file_defs.push(ev_i.file_path.as_str(), i);
            let ghost dv_before = defs_view(defs@);
            defs.push((ev_i.fqn.clone(), id));
            assert(defs_view(defs@) =~= dv_before.push((ev_i.fqn@, id)));
            assert(ev.subrange(0, (i + 1) as int).map_values(|e: DefinitionEventV| (e.fqn, def_id(root@, e))) =~= ev.subrange(
                0,
                i as int,
            ).map_values(|e: DefinitionEventV| (e.fqn, def_id(root@, e))).push((ev_i.fqn@, id)));
            assert forall|f: Seq<char>, k: int|
                file_defs@.contains_key(f) && 0 <= k < file_defs@[f].len() implies (#[trigger] file_defs@[f][k]) < i + 1 by {
                if f == ev_i.file_path@ {
                    if k < values_at(fd_before, f).len() {
                        assert(file_defs@[f][k] == values_at(fd_before, f)[k]);
                    }
                } else {
                    assert(file_defs@[f] == fd_before[f]);
                }
            }
            i = i + 1;
        }
        assert(ev.subrange(0, ev.len() as int) =~= ev);
        let t = SymbolTable { fqn_to_id, short_name_index, file_defs, defs };
        assert(defs_view(t.defs@).len() == ev.len());
        t
    }

    /// Module-scope resolution of a short name from `file_path`.
    pub fn resolve_short(&self, short_name: &str, file_path: &str) -> (r: Option<u64>)
        requires
            self.wf(),
        ensures
            r == spec_resolve_short(self@, short_name@, file_path@),
    {
        let ghost t = self@;
        match self.file_defs.get(file_path) {
            Some(idx) => {
                let mut j: usize = 0;
                assert(idx@.subrange(0, idx@.len() as int) =~= idx@);
                while j < idx.len()
                    invariant
                        j <= idx@.len(),
                        t == self@,
                        self.wf(),
                        t.files.contains_key(file_path@),
                        idx@ == t.files[file_path@],
                        first_local(t.defs, idx@, short_name@) == first_local(
                            t.defs,
                            idx@.subrange(j as int, idx@.len() as int),
                            short_name@,
                        ),
                    decreases idx.len() - j,
                {
                    let k = idx[j];
                    assert(k < t.defs.len());
                    let ghost rest = idx@.subrange(j as int, idx@.len() as int);
                    assert(rest[0] == k);
                    assert(rest.drop_first() =~= idx@.subrange(j + 1, idx@.len() as int));
                    assert(t.defs[k as int] == (self.defs@[k as int].0@, self.defs@[k as int].1));
                    let seg = last_segment(self.defs[k].0.as_str());
                    if str_eq(seg.as_str(), short_name) {
                        return Some(self.defs[k].1);
                    }
                    j = j + 1;
                }
                assert(idx@.subrange(idx@.len() as int, idx@.len() as int) =~= Seq::<usize>::empty());
            },
            None => {},
        }
        match self.short_name_index.get(short_name) {
            Some(v) => {
                if v.len() > 0 {
                    Some(v[0])
                } else {
                    None
                }
            },
            None => None,
        }
    }

    /// Resolution of a fully-qualified name.
    pub fn resolve_fqn(&self, fqn: &str) -> (r: Option<u64>)
        requires
            self.wf(),
        ensures
            r == spec_resolve_fqn(self@, fqn@),
    {
        match self.fqn_to_id.get(fqn) {
            Some(v) => {
                if v.len() > 0 {
                    Some(v[0])
                } else {
                    None
                }
            },
            None => None,
        }
    }

    fn resolve_joined(&self, prefix: &str, sep: &str, name: &str) -> (r: Option<u64>)
        requires
            self.wf(),
        ensures
            r == joined(self@, prefix@, sep@, name@),
    {
        let mut c = String::from_str(prefix);
        c.append(sep);
        c.append(name);
        self.resolve_fqn(c.as_str())
    }

    /// Every definition with this short name.
    pub fn all_by_short_name(&self, short_name: &str) -> (r: Vec<u64>)
        requires
            self.wf(),
        ensures
            r@ == spec_all_by_short(self@, short_name@),
    {
        let mut out: Vec<u64> = Vec::new();
        match self.short_name_index.get(short_name) {
            Some(v) => {
                let mut j: usize = 0;
                while j < v.len()
                    invariant
                        j <= v@.len(),
                        out@ == v@.subrange(0, j as int),
                    decreases v.len() - j,
                {
                    out.push(v[j]);
                    j = j + 1;
                    assert(out@ =~= v@.subrange(0, j as int));
                }
                assert(v@.subrange(0, v@.len() as int) =~= v@);
            },
            None => {},
        }
        out
    }

    /// The ids of the definitions of `file_path`, in definition order.
    pub fn file_def_ids(&self, file_path: &str) -> (r: Option<Vec<u64>>)
        requires
            self.wf(),
        ensures
            match r {
                Some(v) => self@.files.contains_key(file_path@) && v@ == self@.files[file_path@].map_values(
                    |k: usize| self@.defs[k as int].1,
                ),
                None => !self@.files.contains_key(file_path@),
            },
    {
        let ghost t = self@;
        match self.file_defs.get(file_path) {
            Some(idx) => {
                let mut out: Vec<u64> = Vec::new();
                let mut j: usize = 0;
                while j < idx.len()
                    invariant
                        j <= idx@.len(),
                        t == self@,
                        self.wf(),
                        t.files.contains_key(file_path@),
                        idx@ == t.files[file_path@],
                        out@ == idx@.subrange(0, j as int).map_values(|k: usize| t.defs[k as int].1),
                    decreases idx.len() - j,
                {
                    let k = idx[j];
                    assert(k < t.defs.len());
                    assert(t.defs[k as int].1 == self.defs@[k as int].1);
                    out.push(self.defs[k].1);
                    j = j + 1;
                    assert(out@ =~= idx@.subrange(0, j as int).map_values(|k: usize| t.defs[k as int].1));
                }
                assert(idx@.subrange(0, idx@.len() as int) =~= idx@);
                Some(out)
            },
            None => None,
        }
    }

    fn family_a_imports(&self, imports: &Vec<ImportBinding>, name: &str) -> (r: Option<u64>)
        requires
            self.wf(),
        ensures
            r == family_a_imports(self@, imports_view(imports@), name@),
    {
        let ghost iv = imports_view(imports@);
        let mut i: usize = 0;
        assert(iv.subrange(0, iv.len() as int) =~= iv);
        while i < imports.len()
            invariant
                i <= imports@.len(),
                self.wf(),
                iv == imports_view(imports@),
                family_a_imports(self@, iv, name@) == family_a_imports(self@, iv.subrange(i as int, iv.len() as int), name@),
            decreases imports.len() - i,
        {
            let ghost rest = iv.subrange(i as int, iv.len() as int);
            assert(rest.drop_first() =~= iv.subrange(i + 1, iv.len() as int));
            assert(rest[0] == imports@[i as int]@);
            let b = &imports[i];
            if str_eq(b.name.as_str(), name) {
                let m = b.module.as_str();
                if let Some(id) = self.resolve_joined(m, ".", name) {
                    return Some(id);
                }
                if let Some(id) = self.resolve_joined(m, "/", name) {
                    return Some(id);
                }
                if let Some(id) = self.resolve_joined(m, "::", name) {
                    return Some(id);
                }
                if let Some(id) = self.resolve_joined(m, "\\", name) {
                    return Some(id);
                }
                let s = last_segment(m);
                if let Some(id) = self.resolve_joined(s.as_str(), ".", name) {
                    return Some(id);
                }
                if let Some(id) = self.resolve_joined(s.as_str(), "/", name) {
                    return Some(id);
                }
                if let Some(id) = self.resolve_fqn(name) {
                    return Some(id);
                }
            }
            i = i + 1;
        }
        assert(iv.subrange(iv.len() as int, iv.len() as int) =~= Seq::<(Seq<char>, Seq<char>)>::empty());
        None
    }

    fn family_b_imports(&self, imports: &Vec<ImportBinding>, name: &str) -> (r: Option<u64>)
        requires
            self.wf(),
        ensures
            r == family_b_imports(self@, imports_view(imports@), name@),
    {
        let ghost iv = imports_view(imports@);
        let mut i: usize = 0;
        assert(iv.subrange(0, iv.len() as int) =~= iv);
        while i < imports.len()
            invariant
                i <= imports@.len(),
                self.wf(),
                iv == imports_view(imports@),
                family_b_imports(self@, iv, name@) == family_b_imports(self@, iv.subrange(i as int, iv.len() as int), name@),
            decreases imports.len() - i,
        {
            let ghost rest = iv.subrange(i as int, iv.len() as int);
            assert(rest.drop_first() =~= iv.subrange(i + 1, iv.len() as int));
            assert(rest[0] == imports@[i as int]@);
            let b = &imports[i];
            if str_eq(b.name.as_str(), name) {
                let m = b.module.as_str();
                if let Some(id) = self.resolve_joined(m, "::", name) {
                    return Some(id);
                }
                if let Some(id) = self.resolve_joined(m, ".", name) {
                    return Some(id);
                }
                if let Some(id) = self.resolve_joined(m, "/", name) {
                    return Some(id);
                }
                if let Some(id) = self.resolve_joined(m, "\\", name) {
                    return Some(id);
                }
                if let Some(id) = self.resolve_fqn(name) {
                    return Some(id);
                }
            }
            i = i + 1;
        }
        assert(iv.subrange(iv.len() as int, iv.len() as int) =~= Seq::<(Seq<char>, Seq<char>)>::empty());
        None
    }

    /// The callees of a call site of `file_path` in a family-A language.
    pub fn resolve_family_a(&self, site: &CallSite, file_path: &str, imports: &Vec<ImportBinding>) -> (r: Vec<u64>)
        requires
            self.wf(),
        ensures
            r@ == spec_family_a(self@, site@, file_path@, imports_view(imports@)),
    {
        let mut out: Vec<u64> = Vec::new();
        if let Some(id) = self.resolve_short(site.name.as_str(), file_path) {
            out.push(id);
            assert(out@ =~= seq![id]);
            return out;
        }
        if let Some(id) = self.family_a_imports(imports, site.name.as_str()) {
            out.push(id);
            assert(out@ =~= seq![id]);
            return out;
        }
        out
    }

    /// The callees of a call site of `file_path` in a family-B language.
    pub fn resolve_family_b(&self, site: &CallSite, file_path: &str, imports: &Vec<ImportBinding>) -> (r: Vec<u64>)
        requires
            self.wf(),
        ensures
            r@ == spec_family_b(self@, site@, file_path@, imports_view(imports@)),
    {
        let name = site.name.as_str();
        let mut out: Vec<u64> = Vec::new();
        if let Some(id) = self.resolve_short(name, file_path) {
            out.push(id);
            assert(out@ =~= seq![id]);
            return out;
        }
        if let Some(id) = self.family_b_imports(imports, name) {
            out.push(id);
            assert(out@ =~= seq![id]);
            return out;
        }
        match &site.receiver {
            Some(r) => {
                let s = last_segment(r.as_str());
                if let Some(id) = self.resolve_joined(s.as_str(), "::", name) {
                    out.push(id);
                    assert(out@ =~= seq![id]);
                    return out;
                }
                if let Some(id) = self.resolve_joined(s.as_str(), ".", name) {
                    out.push(id);
                    assert(out@ =~= seq![id]);
                    return out;
                }
                if let Some(id) = self.resolve_joined(s.as_str(), "/", name) {
                    out.push(id);
                    assert(out@ =~= seq![id]);
                    return out;
                }
            },
            None => {},
        }
        self.all_by_short_name(name)
    }

    /// The callees of a call site, by the language's family.
    pub fn resolve_call(&self, site: &CallSite, file_path: &str, lang: Language, imports: &Vec<ImportBinding>) -> (r: Vec<
        u64,
    >)
        requires
            self.wf(),
        ensures
            r@ == spec_resolve_call(self@, site@, file_path@, lang, imports_view(imports@)),
    {
        match lang_family(lang) {
            LangFamily::A => self.resolve_family_a(site, file_path, imports),
            LangFamily::B => self.resolve_family_b(site, file_path, imports),
        }
    }
}

/// Builds the symbol table from all definition events.
pub fn build_symbol_table(events: &Vec<DefinitionEvent>, root: &str) -> (t: SymbolTable)
    ensures
        t.wf(),
        t@ == spec_symbol_table(root@, definitions_view(events@)),
{
    SymbolTable::build(events, root)
}

/// One capture of a query match: its name, its text, its byte range and
/// the row (0-based line) it starts on.
pub struct QueryCapture {
    pub name: String,
    pub text: String,
    pub start_byte: usize,
    pub end_byte: usize,
    pub row: usize,
}

pub struct QueryCaptureV {
    pub name: Seq<char>,
    pub text: Seq<char>,
    pub start_byte: usize,
    pub end_byte: usize,
    pub row: usize,
}

impl View for QueryCapture {
    type V = QueryCaptureV;

    open spec fn view(&self) -> QueryCaptureV {
        QueryCaptureV {
            name: self.name@,
            text: self.text@,
            start_byte: self.start_byte,
            end_byte: self.end_byte,
            row: self.row,
        }
    }
}

pub open spec fn match_view(m: Seq<QueryCapture>) -> Seq<QueryCaptureV> {
    m.map_values(|c: QueryCapture| c@)
}

pub open spec fn query_matches_view(ms: Seq<Vec<QueryCapture>>) -> Seq<Seq<QueryCaptureV>> {
    ms.map_values(|m: Vec<QueryCapture>| match_view(m@))
}

/// The two captures named `first` and `second` that a match holds (the
/// last of each), skipping captures whose name starts with `_`.
pub open spec fn read_pair(caps: Seq<QueryCaptureV>, first: Seq<char>, second: Seq<char>) -> (Option<Seq<char>>, Option<Seq<char>>)
    decreases caps.len(),
{
    if caps.len() == 0 {
        (None, None)
    } else {
        let (a, b) = read_pair(caps.drop_last(), first, second);
        let c = caps.last();
        if has_prefix(c.name, "_"@) {
            (a, b)
        } else if c.name == first {
            (Some(c.text), b)
        } else if c.name == second {
            (a, Some(c.text))
        } else {
            (a, b)
        }
    }
}

fn read_pair_exec(caps: &Vec<QueryCapture>, first: &str, second: &str) -> (r: (Option<String>, Option<String>))
    ensures
        read_pair(match_view(caps@), first@, second@) == (
            match r.0 {
                Some(x) => Some(x@),
                None => None,
            },
            match r.1 {
                Some(x) => Some(x@),
                None => None,
            },
        ),
{
    let ghost cv = match_view(caps@);
    let mut a: Option<String> = None;
    let mut b: Option<String> = None;
    let mut j: usize = 0;
    assert(cv.subrange(0, 0) =~= Seq::<QueryCaptureV>::empty());
    while j < caps.len()
        invariant
            j <= caps@.len(),
            cv == match_view(caps@),
            read_pair(cv.subrange(0, j as int), first@, second@) == (
                match a {
                    Some(x) => Some(x@),
                    None => None,
                },
                match b {
                    Some(x) => Some(x@),
                    None => None,
                },
            ),
        decreases caps.len() - j,
    {
        let ghost pre = cv.subrange(0, (j + 1) as int);
        assert(pre.drop_last() =~= cv.subrange(0, j as int));
        let c = &caps[j];
        assert(pre.last() == c@);
        if str_starts_with(c.name.as_str(), "_") {
        } else if str_eq(c.name.as_str(), first) {
            a = Some(c.text.clone());
        } else if str_eq(c.name.as_str(), second) {
            b = Some(c.text.clone());
        }
        j = j + 1;
    }
    assert(cv.subrange(0, cv.len() as int) =~= cv);
    (a, b)
}

/// The call sites of a file: one per match with a `call.name` capture.
pub open spec fn calls_of(ms: Seq<Seq<QueryCaptureV>>) -> Seq<CallSiteV>
    decreases ms.len(),
{
    if ms.len() == 0 {
        Seq::empty()
    } else {
        let prev = calls_of(ms.drop_last());
        match read_pair(ms.last(), "call.name"@, "call.receiver"@) {
            (Some(n), r) => prev.push((n, r)),
            _ => prev,
        }
    }
}

/// The call sites read off the calls query's matches.
pub fn call_sites(matches: &Vec<Vec<QueryCapture>>) -> (r: Vec<CallSite>)
    ensures
        sites_view(r@) == calls_of(query_matches_view(matches@)),
{
    let ghost mv = query_matches_view(matches@);
    let mut out: Vec<CallSite> = Vec::new();
    let mut i: usize = 0;
    assert(mv.subrange(0, 0) =~= Seq::<Seq<QueryCaptureV>>::empty());
    while i < matches.len()
        invariant
            i <= matches@.len(),
            mv == query_matches_view(matches@),
            sites_view(out@) == calls_of(mv.subrange(0, i as int)),
        decreases matches.len() - i,
    {
        let ghost pre = mv.subrange(0, (i + 1) as int);
        assert(pre.drop_last() =~= mv.subrange(0, i as int));
        assert(pre.last() == match_view(matches@[i as int]@));
        let (name, receiver) = read_pair_exec(&matches[i], "call.name", "call.receiver");
        match name {
            Some(n) => {
                let site = CallSite { name: n, receiver };
                let ghost before = sites_view(out@);
                out.push(site);
                assert(sites_view(out@) =~= before.push(site@));
            },
            None => {},
        }
        i = i + 1;
    }
    assert(mv.subrange(0, mv.len() as int) =~= mv);
    out
}

/// The imports of a file: one per match with an `import.module` capture;
/// the module loses its quotes, and the local name defaults to the
/// module's last segment.
pub open spec fn imports_of(ms: Seq<Seq<QueryCaptureV>>) -> Seq<(Seq<char>, Seq<char>)>
    decreases ms.len(),
{
    if ms.len() == 0 {
        Seq::empty()
    } else {
        let prev = imports_of(ms.drop_last());
        match read_pair(ms.last(), "import.name"@, "import.module"@) {
            (n, Some(m)) => {
                let module = spec_strip_quotes(m);
                let name = match n {
                    Some(x) => x,
                    None => spec_last_segment(module),
                };
                prev.push((name, module))
            },
            _ => prev,
        }
    }
}

/// No `import.module` capture is a lone quote character.
pub open spec fn modules_strippable(ms: Seq<Seq<QueryCaptureV>>) -> bool {
    forall|i: int, j: int|
        0 <= i < ms.len() && 0 <= j < ms[i].len() && (#[trigger] ms[i][j]).name == "import.module"@ ==> !(trim(
            ms[i][j].text,
        ).len() == 1 && is_quote(trim(ms[i][j].text)[0]))
}

proof fn read_pair_from_capture(caps: Seq<QueryCaptureV>, first: Seq<char>, second: Seq<char>)
    ensures
        read_pair(caps, first, second).1 matches Some(t) ==> exists|j: int|
            0 <= j < caps.len() && (#[trigger] caps[j]).name == second && caps[j].text == t,
    decreases caps.len(),
{
    if caps.len() > 0 {
        read_pair_from_capture(caps.drop_last(), first, second);
        let (a, b) = read_pair(caps.drop_last(), first, second);
        if let Some(t) = b {
            if read_pair(caps, first, second).1 == Some(t) {
                let j = choose|j: int| 0 <= j < caps.drop_last().len() && (#[trigger] caps.drop_last()[j]).name == second && caps.drop_last()[j].text == t;
                assert(caps[j] == caps.drop_last()[j]);
            }
        }
    }
}

/// The imports read off the imports query's matches.
pub fn import_bindings(matches: &Vec<Vec<QueryCapture>>) -> (r: Vec<ImportBinding>)
    requires
        modules_strippable(query_matches_view(matches@)),
    ensures
        imports_view(r@) == imports_of(query_matches_view(matches@)),
{
    let ghost mv = query_matches_view(matches@);
    let mut out: Vec<ImportBinding> = Vec::new();
    let mut i: usize = 0;
    assert(mv.subrange(0, 0) =~= Seq::<Seq<QueryCaptureV>>::empty());
    while i < matches.len()
        invariant
            i <= matches@.len(),
            mv == query_matches_view(matches@),
            modules_strippable(mv),
            imports_view(out@) == imports_of(mv.subrange(0, i as int)),
        decreases matches.len() - i,
    {
        let ghost pre = mv.subrange(0, (i + 1) as int);
        assert(pre.drop_last() =~= mv.subrange(0, i as int));
        assert(pre.last() == mv[i as int]);
        let (name, module) = read_pair_exec(&matches[i], "import.name", "import.module");
        match module {
            Some(m) => {
                proof {
                    read_pair_from_capture(mv[i as int], "import.name"@, "import.module"@);
                }
                let module = strip_quotes(m.as_str());
                let name = match name {
                    Some(n) => n,
                    None => last_segment(module.as_str()),
                };
                let b = ImportBinding { name, module };
                let ghost before = imports_view(out@);
                out.push(b);
                assert(imports_view(out@) =~= before.push(b@));
            },
            None => {},
        }
        i = i + 1;
    }
    assert(mv.subrange(0, mv.len() as int) =~= mv);
    out
}

/// `prev` with the edge `(a, b)` appended, unless it is a self-loop or
/// already there.
pub open spec fn add_pair(prev: Seq<(u64, u64)>, a: u64, b: u64) -> Seq<(u64, u64)> {
    if a != b && !prev.contains((a, b)) {
        prev.push((a, b))
    } else {
        prev
    }
}

/// Edges from every caller to `callee`.
pub open spec fn add_callers(prev: Seq<(u64, u64)>, callers: Seq<u64>, callee: u64) -> Seq<(u64, u64)>
    decreases callers.len(),
{
    if callers.len() == 0 {
        prev
    } else {
        add_pair(add_callers(prev, callers.drop_last(), callee), callers.last(), callee)
    }
}

/// Edges from every caller to every callee.
pub open spec fn add_callees(prev: Seq<(u64, u64)>, callers: Seq<u64>, callees: Seq<u64>) -> Seq<(u64, u64)>
    decreases callees.len(),
{
    if callees.len() == 0 {
        prev
    } else {
        add_callers(add_callees(prev, callers, callees.drop_last()), callers, callees.last())
    }
}

/// The call edges of a file, site by site.
pub open spec fn file_edges(
    t: SymbolTableV,
    callers: Seq<u64>,
    sites: Seq<CallSiteV>,
    file: Seq<char>,
    lang: Language,
    imports: Seq<(Seq<char>, Seq<char>)>,
) -> Seq<(u64, u64)>
    decreases sites.len(),
{
    if sites.len() == 0 {
        Seq::empty()
    } else {
        add_callees(
            file_edges(t, callers, sites.drop_last(), file, lang, imports),
            callers,
            spec_resolve_call(t, sites.last(), file, lang, imports),
        )
    }
}

/// The callers of a file: its definitions, or its `File` node when it has
/// none.
pub open spec fn file_callers(t: SymbolTableV, root: Seq<char>, file: Seq<char>) -> Seq<u64> {
    if t.files.contains_key(file) {
        t.files[file].map_values(|k: usize| t.defs[k as int].1)
    } else {
        seq![spec_node_id(rel_path(file, root), rel_path(file, root), NodeKind::File, 0)]
    }
}

pub open spec fn edge_pairs(v: Seq<EdgeWriteEvent>) -> Seq<(u64, u64)> {
    v.map_values(|e: EdgeWriteEvent| (e.from, e.to))
}

fn has_edge(edges: &Vec<EdgeWriteEvent>, a: u64, b: u64) -> (r: bool)
    ensures
        r == edge_pairs(edges@).contains((a, b)),
{
    let mut i: usize = 0;
    while i < edges.len()
        invariant
            i <= edges@.len(),
            forall|k: int| 0 <= k < i ==> (#[trigger] edges@[k]).from != a || edges@[k].to != b,
        decreases edges.len() - i,
    {
        if edges[i].from == a && edges[i].to == b {
            assert(edge_pairs(edges@)[i as int] == (a, b));
            return true;
        }
        i = i + 1;
    }
    assert forall|k: int| 0 <= k < edge_pairs(edges@).len() implies edge_pairs(edges@)[k] != (a, b) by {
        assert(edges@[k].from != a || edges@[k].to != b);
    }
    false
}

impl SymbolTable {
    /// The call edges of one file: every call site's callees, from every
    /// caller of the file, once per pair and never to itself.
    pub fn call_edges(
        &self,
        root: &str,
        file_path: &str,
        lang: Language,
        sites: &Vec<CallSite>,
        imports: &Vec<ImportBinding>,
    ) -> (r: Vec<EdgeWriteEvent>)
        requires
            self.wf(),
        ensures
            edge_pairs(r@) == file_edges(
                self@,
                file_callers(self@, root@, file_path@),
                sites_view(sites@),
                file_path@,
                lang,
                imports_view(imports@),
            ),
            forall|k: int| 0 <= k < r@.len() ==> (#[trigger] r@[k]).kind == 0,
    {
        let callers = match self.file_def_ids(file_path) {
            Some(v) => v,
            None => {
                let rel = relative_path(file_path, root);
                let mut v: Vec<u64> = Vec::new();
                v.push(node_id(rel.as_str(), rel.as_str(), NodeKind::File, 0));
                v
            },
        };
        let ghost cl = file_callers(self@, root@, file_path@);
        assert(callers@ =~= cl);
        let ghost sv = sites_view(sites@);
        let ghost iv = imports_view(imports@);
        let mut edges: Vec<EdgeWriteEvent> = Vec::new();
        let mut s: usize = 0;
        assert(sv.subrange(0, 0) =~= Seq::<CallSiteV>::empty());
        while s < sites.len()
            invariant
                s <= sites@.len(),
                self.wf(),
                callers@ == cl,
                sv == sites_view(sites@),
                iv == imports_view(imports@),
                edge_pairs(edges@) == file_edges(self@, cl, sv.subrange(0, s as int), file_path@, lang, iv),
                forall|k: int| 0 <= k < edges@.len() ==> (#[trigger] edges@[k]).kind == 0,
            decreases sites.len() - s,
        {
            let ghost pre = sv.subrange(0, (s + 1) as int);
            assert(pre.drop_last() =~= sv.subrange(0, s as int));
            assert(pre.last() == sites@[s as int]@);
            let callees = self.resolve_call(&sites[s], file_path, lang, imports);
            let ghost base = edge_pairs(edges@);
            let mut c: usize = 0;
            assert(callees@.subrange(0, 0) =~= Seq::<u64>::empty());
            while c < callees.len()
                invariant
                    c <= callees@.len(),
                    callers@ == cl,
                    edge_pairs(edges@) == add_callees(base, cl, callees@.subrange(0, c as int)),
                    forall|k: int| 0 <= k < edges@.len() ==> (#[trigger] edges@[k]).kind == 0,
                decreases callees.len() - c,
            {
                let callee = callees[c];
                let ghost cpre = callees@.subrange(0, (c + 1) as int);
                assert(cpre.drop_last() =~= callees@.subrange(0, c as int));
                let ghost base2 = edge_pairs(edges@);
                let mut k: usize = 0;
                assert(callers@.subrange(0, 0) =~= Seq::<u64>::empty());
                while k < callers.len()
                    invariant
                        k <= callers@.len(),
                        edge_pairs(edges@) == add_callers(base2, callers@.subrange(0, k as int), callee),
                        forall|q: int| 0 <= q < edges@.len() ==> (#[trigger] edges@[q]).kind == 0,
                    decreases callers.len() - k,
                {
                    let caller = callers[k];
                    let ghost kpre = callers@.subrange(0, (k + 1) as int);
                    assert(kpre.drop_last() =~= callers@.subrange(0, k as int));
                    if caller != callee && !has_edge(&edges, caller, callee) {
                        let ghost before = edge_pairs(edges@);
                        edges.push(EdgeWriteEvent { from: caller, to: callee, kind: 0 });
                        assert(edge_pairs(edges@) =~= before.push((caller, callee)));
                    }
                    k = k + 1;
                }
                assert(callers@.subrange(0, callers@.len() as int) =~= callers@);
                c = c + 1;
            }
            assert(callees@.subrange(0, callees@.len() as int) =~= callees@);
            s = s + 1;
        }
        assert(sv.subrange(0, sv.len() as int) =~= sv);
        edges
    }
}

/// The distinct files of the definitions, in order of first appearance,
/// with their languages; a file whose extension names no language is left
/// out.
pub open spec fn spec_unique_files(es: Seq<DefinitionEventV>) -> Seq<(Seq<char>, Language)>
    decreases es.len(),
{
    if es.len() == 0 {
        Seq::empty()
    } else {
        let prev = spec_unique_files(es.drop_last());
        let p = es.last().file_path;
        if exists|k: int| 0 <= k < es.len() - 1 && (#[trigger] es[k]).file_path == p {
            prev
        } else {
            match language_of_path(p) {
                Some(l) => prev.push((p, l)),
                None => prev,
            }
        }
    }
}

/// The distinct files of the definition events, with their languages.
pub fn unique_files(events: &Vec<DefinitionEvent>) -> (r: Vec<(String, Language)>)
    ensures
        r@.map_values(|f: (String, Language)| (f.0@, f.1)) == spec_unique_files(definitions_view(events@)),
{
    let ghost ev = definitions_view(events@);
    let mut out: Vec<(String, Language)> = Vec::new();
    let mut i: usize = 0;
    assert(ev.subrange(0, 0) =~= Seq::<DefinitionEventV>::empty());
    while i < events.len()
        invariant
            i <= events@.len(),
            ev == definitions_view(events@),
            out@.map_values(|f: (String, Language)| (f.0@, f.1)) == spec_unique_files(ev.subrange(0, i as int)),
        decreases events.len() - i,
    {
        let ghost pre = ev.subrange(0, (i + 1) as int);
        assert(pre.drop_last() =~= ev.subrange(0, i as int));
        let p = events[i].file_path.as_str();
        assert(pre.last().file_path == p@);
        let mut seen = false;
        let mut k: usize = 0;
        while k < i
            invariant_except_break
                !seen,
            invariant
                k <= i < events@.len(),
                ev == definitions_view(events@),
                forall|q: int| 0 <= q < k ==> (#[trigger] ev[q]).file_path != p@,
            ensures
                seen ==> exists|q: int| 0 <= q < i && (#[trigger] ev[q]).file_path == p@,
                !seen ==> forall|q: int| 0 <= q < i ==> (#[trigger] ev[q]).file_path != p@,
            decreases i - k,
        {
            assert(ev[k as int] == events@[k as int]@);
            if str_eq(events[k].file_path.as_str(), p) {
                seen = true;
                break;
            }
            k = k + 1;
        }
        if seen {
            let ghost q = choose|q: int| 0 <= q < i && (#[trigger] ev[q]).file_path == p@;
            assert(pre[q] == ev[q]);
        }
        if !seen {
            assert forall|q: int| 0 <= q < pre.len() - 1 implies (#[trigger] pre[q]).file_path != p@ by {
                assert(pre[q] == ev[q]);
            }
            match language_of(p) {
                Some(l) => {
                    let ghost before = out@.map_values(|f: (String, Language)| (f.0@, f.1));
                    out.push((String::from_str(p), l));
                    assert(out@.map_values(|f: (String, Language)| (f.0@, f.1)) =~= before.push((p@, l)));
                },
                None => {},
            }
        }
        i = i + 1;
    }
    assert(ev.subrange(0, ev.len() as int) =~= ev);
    out
}

/// No pair occurs twice and none is a self-loop.
pub open spec fn pairs_clean(s: Seq<(u64, u64)>) -> bool {
    &&& forall|i: int| 0 <= i < s.len() ==> (#[trigger] s[i]).0 != s[i].1
    &&& forall|i: int, j: int| 0 <= i < j < s.len() ==> #[trigger] s[i] != #[trigger] s[j]
}

proof fn add_pair_clean(prev: Seq<(u64, u64)>, a: u64, b: u64)
    requires
        pairs_clean(prev),
    ensures
        pairs_clean(add_pair(prev, a, b)),
{
    if a != b && !prev.contains((a, b)) {
        let r = prev.push((a, b));
        assert forall|i: int, j: int| 0 <= i < j < r.len() implies #[trigger] r[i] != #[trigger] r[j] by {
            if j == prev.len() {
                assert(r[i] == prev[i]);
            } else {
                assert(r[i] == prev[i] && r[j] == prev[j]);
            }
        }
        assert forall|i: int| 0 <= i < r.len() implies (#[trigger] r[i]).0 != r[i].1 by {
            if i < prev.len() {
                assert(r[i] == prev[i]);
            }
        }
    }
}

proof fn add_callers_clean(prev: Seq<(u64, u64)>, callers: Seq<u64>, callee: u64)
    requires
        pairs_clean(prev),
    ensures
        pairs_clean(add_callers(prev, callers, callee)),
    decreases callers.len(),
{
    if callers.len() > 0 {
        add_callers_clean(prev, callers.drop_last(), callee);
        add_pair_clean(add_callers(prev, callers.drop_last(), callee), callers.last(), callee);
    }
}

proof fn add_callees_clean(prev: Seq<(u64, u64)>, callers: Seq<u64>, callees: Seq<u64>)
    requires
        pairs_clean(prev),
    ensures
        pairs_clean(add_callees(prev, callers, callees)),
    decreases callees.len(),
{
    if callees.len() > 0 {
        add_callees_clean(prev, callers, callees.drop_last());
        add_callers_clean(add_callees(prev, callers, callees.drop_last()), callers, callees.last());
    }
}

/// A file's call edges hold each (caller, callee) pair at most once and
/// never link a definition to itself.
pub proof fn call_edges_are_distinct_and_not_self_loops(
    t: SymbolTableV,
    callers: Seq<u64>,
    sites: Seq<CallSiteV>,
    file: Seq<char>,
    lang: Language,
    imports: Seq<(Seq<char>, Seq<char>)>,
)
    ensures
        pairs_clean(file_edges(t, callers, sites, file, lang, imports)),
    decreases sites.len(),
{
    if sites.len() > 0 {
        call_edges_are_distinct_and_not_self_loops(t, callers, sites.drop_last(), file, lang, imports);
        add_callees_clean(
            file_edges(t, callers, sites.drop_last(), file, lang, imports),
            callers,
            spec_resolve_call(t, sites.last(), file, lang, imports),
        );
    }
}

} // verus!
