//! Parsing a file with tree-sitter and running one query over the parse:
//! the captures that the structure, call and route passes read.

use vstd::prelude::*;
use vstd::slice::slice_subrange;
use tree_sitter::Language as Grammar;
use tree_sitter::Query as TsQuery;
use tree_sitter::Tree as TsTree;
use crate::language::{Language, PER_FILE_TIMEOUT_SECS};
use crate::pipeline::channels::StructureEvent;
use crate::pipeline::pass1::{DefCapture, DefCaptureV, match_events, matches_view, structure_events};
use crate::pipeline::channels::{EdgeWriteEvent, NodeWriteEvent, NodeWriteEventV};
use crate::pipeline::pass3::{
    QueryCapture, QueryCaptureV, SymbolTable, SymbolTableV, call_sites, calls_of, edge_pairs, file_callers, file_edges,
    import_bindings, imports_of, is_quote, modules_strippable, query_matches_view,
};
use crate::pipeline::pass4::{extract_routes, route_events, route_writes_view, routes_of, rows_fit, spec_route_write};
use crate::text::{chars_of, str_eq, trim, trim_chars};

verus! {

/// A capture as tree-sitter reports it: the capture's name, the byte range
/// of the captured node and the row it starts on.
#[derive(Debug)]
pub struct RawCapture {
    pub name: String,
    pub start_byte: usize,
    pub end_byte: usize,
    pub row: usize,
}

pub type RawCaptureV = (Seq<char>, usize, usize, usize);

impl View for RawCapture {
    type V = RawCaptureV;

    open spec fn view(&self) -> RawCaptureV {
        (self.name@, self.start_byte, self.end_byte, self.row)
    }
}

pub open spec fn raw_matches_view(ms: Seq<Vec<RawCapture>>) -> Seq<Seq<RawCaptureV>> {
    ms.map_values(|m: Vec<RawCapture>| m@.map_values(|c: RawCapture| c@))
}

/// The captures, match by match, that tree-sitter finds when `source` is
/// parsed with `lang`'s grammar and the query `scm` is run over the tree;
/// `None` when the grammar cannot be set, the parser gives no tree, or the
/// query does not compile.
pub uninterp spec fn ts_matches(lang: Language, scm: Seq<char>, source: Seq<u8>) -> Option<Seq<Seq<RawCaptureV>>>;

/// Every capture's byte range lies within the first `n` bytes.
pub open spec fn captures_within(ms: Seq<Seq<RawCaptureV>>, n: int) -> bool {
    forall|i: int, j: int| 0 <= i < ms.len() && 0 <= j < ms[i].len() ==> (#[trigger] ms[i][j]).1 <= ms[i][j].2 <= n
}

/// One query run over a file: the matches, and how long the parse and the
/// whole run took, in milliseconds.
pub struct QueryRun {
    pub matches: Option<Vec<Vec<RawCapture>>>,
    pub parse_ms: u64,
    pub total_ms: u64,
}

/// `tree_sitter_rust::LANGUAGE`, converted to `tree_sitter::Language`.
#[verifier::external_body]
fn rust_grammar() -> Grammar {
    tree_sitter_rust::LANGUAGE.into()
}

/// `tree_sitter_python::LANGUAGE`, converted to `tree_sitter::Language`.
#[verifier::external_body]
fn python_grammar() -> Grammar {
    tree_sitter_python::LANGUAGE.into()
}

/// `tree_sitter_javascript::LANGUAGE`, converted to `tree_sitter::Language`.
#[verifier::external_body]
fn javascript_grammar() -> Grammar {
    tree_sitter_javascript::LANGUAGE.into()
}

/// `tree_sitter_typescript::LANGUAGE_TYPESCRIPT`, converted to `tree_sitter::Language`.
#[verifier::external_body]
fn typescript_grammar() -> Grammar {
    tree_sitter_typescript::LANGUAGE_TYPESCRIPT.into()
}

/// `tree_sitter_typescript::LANGUAGE_TSX`, converted to `tree_sitter::Language`.
#[verifier::external_body]
fn tsx_grammar() -> Grammar {
    tree_sitter_typescript::LANGUAGE_TSX.into()
}

/// `tree_sitter_go::LANGUAGE`, converted to `tree_sitter::Language`.
#[verifier::external_body]
fn go_grammar() -> Grammar {
    tree_sitter_go::LANGUAGE.into()
}

/// `tree_sitter_java::LANGUAGE`, converted to `tree_sitter::Language`.
#[verifier::external_body]
fn java_grammar() -> Grammar {
    tree_sitter_java::LANGUAGE.into()
}

/// `tree_sitter_cpp::LANGUAGE`, converted to `tree_sitter::Language`.
#[verifier::external_body]
fn cpp_grammar() -> Grammar {
    tree_sitter_cpp::LANGUAGE.into()
}

/// `tree_sitter_c_sharp::LANGUAGE`, converted to `tree_sitter::Language`.
#[verifier::external_body]
fn csharp_grammar() -> Grammar {
    tree_sitter_c_sharp::LANGUAGE.into()
}

/// `tree_sitter_php::LANGUAGE_PHP`, converted to `tree_sitter::Language`.
#[verifier::external_body]
fn php_grammar() -> Grammar {
    tree_sitter_php::LANGUAGE_PHP.into()
}

/// `tree_sitter_scala::LANGUAGE`, converted to `tree_sitter::Language`.
#[verifier::external_body]
fn scala_grammar() -> Grammar {
    tree_sitter_scala::LANGUAGE.into()
}

/// `tree_sitter_lua::LANGUAGE`, converted to `tree_sitter::Language`.
#[verifier::external_body]
fn lua_grammar() -> Grammar {
    tree_sitter_lua::LANGUAGE.into()
}

/// The tree-sitter grammar that parses `lang`.
fn grammar(lang: Language) -> Grammar {
    match lang {
        Language::Rust => rust_grammar(),
        Language::Python => python_grammar(),
        Language::JavaScript => javascript_grammar(),
        Language::TypeScript => typescript_grammar(),
        Language::Tsx => tsx_grammar(),
        Language::Go => go_grammar(),
        Language::Java => java_grammar(),
        Language::Cpp => cpp_grammar(),
        Language::CSharp => csharp_grammar(),
        Language::Php => php_grammar(),
        Language::Scala => scala_grammar(),
        Language::Lua => lua_grammar(),
    }
}

/// Calls `Parser::new`, `Parser::set_language` with `lang`'s grammar and
/// `Parser::parse` on `source`: the syntax tree, or `None` when the grammar
/// cannot be set or the parser gives no tree. Nothing is claimed of the
/// tree here; `run_query` states what its matches are.
#[verifier::external_body]
fn parse_source(lang: Language, source: &[u8]) -> Option<TsTree> {
    let mut p = tree_sitter::Parser::new();
    p.set_language(&grammar(lang)).ok()?;
    p.parse(source, None)
}

/// Calls `Query::new` on `scm` for `lang`'s grammar: the compiled query, or
/// `None` when it does not compile. Nothing is claimed of the query here;
/// `run_query` states what its matches are.
#[verifier::external_body]
fn compile_query(lang: Language, scm: &str) -> Option<TsQuery> {
    TsQuery::new(&grammar(lang), scm).ok()
}

/// Calls `QueryCursor::matches` of `q` over `tree`, copying each capture's
/// name, byte range and start row, match by match.
#[verifier::external_body]
fn query_matches(q: &TsQuery, tree: &TsTree, source: &[u8]) -> Vec<Vec<RawCapture>> {
    let mut cur = tree_sitter::QueryCursor::new();
    let mut ms = cur.matches(q, tree.root_node(), source);
    let mut out = Vec::new();
    while let Some(m) = tree_sitter::StreamingIterator::next(&mut ms) {
        out.push(m.captures().iter().map(|c| RawCapture { name: q.capture_names()[c.index as usize].to_string(), start_byte: c.node.start_byte(), end_byte: c.node.end_byte(), row: c.node.start_position().row }).collect());
    }
    out
}

/// Runs tree-sitter: parses `source` with `lang`'s grammar
/// (`parse_source`), compiles `scm` (`compile_query`) and collects the
/// matches (`query_matches`). The captures are a function of the three
/// arguments, and their byte ranges lie within `source`, which the tree
/// spans. The timings depend on the machine; nothing is claimed of them.
#[verifier::external_body]
pub fn run_query(lang: Language, scm: &str, source: &[u8]) -> (r: QueryRun)
    ensures
        match r.matches {
            Some(ms) => ts_matches(lang, scm@, source@) == Some(raw_matches_view(ms@)) && captures_within(
                raw_matches_view(ms@),
                source@.len() as int,
            ),
            None => ts_matches(lang, scm@, source@) is None,
        },
{
    let t0 = std::time::Instant::now();
    let tree = parse_source(lang, source);
    let parse_ms = t0.elapsed().as_millis() as u64;
    let matches = match (tree, compile_query(lang, scm)) {
        (Some(t), Some(q)) => Some(query_matches(&q, &t, source)),
        _ => None,
    };
    QueryRun { matches, parse_ms, total_ms: t0.elapsed().as_millis() as u64 }
}

/// The text of `bytes` when they are valid UTF-8 (no malformed, overlong
/// or surrogate sequence), decoded scalar by scalar.
pub open spec fn utf8_decoded(bytes: Seq<u8>) -> Option<Seq<char>> {
    if vstd::utf8::valid_utf8(bytes) {
        Some(vstd::utf8::decode_utf8(bytes))
    } else {
        None
    }
}

/// Calls `std::str::from_utf8`: the text when `bytes` are valid UTF-8,
/// `None` otherwise (std returns an error exactly for invalid UTF-8, and
/// otherwise the same bytes read as a string).
#[verifier::external_body]
pub(crate) fn decode_utf8(bytes: &[u8]) -> (r: Option<String>)
    ensures
        match r {
            Some(t) => utf8_decoded(bytes@) == Some(t@),
            None => utf8_decoded(bytes@) is None,
        },
{
    std::str::from_utf8(bytes).ok().map(|t| t.to_owned())
}

/// The text of `bytes`, each invalid UTF-8 sequence replaced by U+FFFD.
pub uninterp spec fn utf8_lossy(bytes: Seq<u8>) -> Seq<char>;

/// Calls `String::from_utf8_lossy`: the text of `bytes`, with U+FFFD for
/// each invalid sequence.
#[verifier::external_body]
pub(crate) fn decode_lossy(bytes: &[u8]) -> (r: String)
    ensures
        r@ == utf8_lossy(bytes@),
{
    String::from_utf8_lossy(bytes).into_owned()
}

/// A definitions-query capture: the name and range, and the captured text
/// when it is valid UTF-8.
pub open spec fn def_capture_of(c: RawCaptureV, source: Seq<u8>) -> DefCaptureV {
    DefCaptureV { name: c.0, start_byte: c.1, end_byte: c.2, text: utf8_decoded(source.subrange(c.1 as int, c.2 as int)) }
}

pub open spec fn def_captures_of(ms: Seq<Seq<RawCaptureV>>, source: Seq<u8>) -> Seq<Seq<DefCaptureV>> {
    ms.map_values(|m: Seq<RawCaptureV>| m.map_values(|c: RawCaptureV| def_capture_of(c, source)))
}

/// A calls, imports or routes capture: the name, the captured text (with
/// U+FFFD for invalid UTF-8), the range and the start row.
pub open spec fn query_capture_of(c: RawCaptureV, source: Seq<u8>) -> QueryCaptureV {
    QueryCaptureV {
        name: c.0,
        text: utf8_lossy(source.subrange(c.1 as int, c.2 as int)),
        start_byte: c.1,
        end_byte: c.2,
        row: c.3,
    }
}

pub open spec fn query_captures_of(ms: Seq<Seq<RawCaptureV>>, source: Seq<u8>) -> Seq<Seq<QueryCaptureV>> {
    ms.map_values(|m: Seq<RawCaptureV>| m.map_values(|c: RawCaptureV| query_capture_of(c, source)))
}

/// The captures of a definitions query, with their texts.
pub fn def_captures(ms: &Vec<Vec<RawCapture>>, source: &[u8]) -> (r: Vec<Vec<DefCapture>>)
    requires
        captures_within(raw_matches_view(ms@), source@.len() as int),
    ensures
        matches_view(r@) == def_captures_of(raw_matches_view(ms@), source@),
{
    let ghost mv = raw_matches_view(ms@);
    let ghost want = def_captures_of(mv, source@);
    let mut out: Vec<Vec<DefCapture>> = Vec::new();
    let mut i: usize = 0;
    while i < ms.len()
        invariant
            i <= ms@.len(),
            mv == raw_matches_view(ms@),
            want == def_captures_of(mv, source@),
            captures_within(mv, source@.len() as int),
            matches_view(out@) == want.subrange(0, i as int),
        decreases ms.len() - i,
    {
        let m = &ms[i];
        assert(mv[i as int] == m@.map_values(|c: RawCapture| c@));
        let mut caps: Vec<DefCapture> = Vec::new();
        let mut j: usize = 0;
        while j < m.len()
            invariant
                i < ms@.len(),
                j <= m@.len(),
                m == ms@[i as int],
                mv == raw_matches_view(ms@),
                mv[i as int] == m@.map_values(|c: RawCapture| c@),
                captures_within(mv, source@.len() as int),
                caps@.map_values(|c: DefCapture| c@) == mv[i as int].subrange(0, j as int).map_values(
                    |c: RawCaptureV| def_capture_of(c, source@),
                ),
            decreases m.len() - j,
        {
            let c = &m[j];
            assert(mv[i as int][j as int] == c@);
            let bytes = slice_subrange(source, c.start_byte, c.end_byte);
            let d = DefCapture { name: c.name.clone(), start_byte: c.start_byte, end_byte: c.end_byte, text: decode_utf8(bytes) };
            assert(d@ == def_capture_of(c@, source@));
            let ghost pre = caps@.map_values(|c: DefCapture| c@);
            caps.push(d);
            assert(caps@.map_values(|c: DefCapture| c@) =~= pre.push(d@));
            assert(mv[i as int].subrange(0, j + 1) =~= mv[i as int].subrange(0, j as int).push(c@));
            assert(caps@.map_values(|c: DefCapture| c@) =~= mv[i as int].subrange(0, j + 1).map_values(
                |c: RawCaptureV| def_capture_of(c, source@),
            ));
            j = j + 1;
        }
        assert(mv[i as int].subrange(0, m@.len() as int) =~= mv[i as int]);
        let ghost pre = matches_view(out@);
        let ghost cv = caps@.map_values(|c: DefCapture| c@);
        out.push(caps);
        assert(want[i as int] == cv);
        assert(matches_view(out@) =~= pre.push(cv));
        assert(want.subrange(0, i + 1) =~= want.subrange(0, i as int).push(want[i as int]));
        assert(matches_view(out@) =~= want.subrange(0, i + 1));
        i = i + 1;
    }
    assert(want.subrange(0, want.len() as int) =~= want);
    out
}

/// The captures of a calls, imports or routes query, with their texts.
pub fn query_captures(ms: &Vec<Vec<RawCapture>>, source: &[u8]) -> (r: Vec<Vec<QueryCapture>>)
    requires
        captures_within(raw_matches_view(ms@), source@.len() as int),
    ensures
        query_matches_view(r@) == query_captures_of(raw_matches_view(ms@), source@),
{
    let ghost mv = raw_matches_view(ms@);
    let ghost want = query_captures_of(mv, source@);
    let mut out: Vec<Vec<QueryCapture>> = Vec::new();
    let mut i: usize = 0;
    while i < ms.len()
        invariant
            i <= ms@.len(),
            mv == raw_matches_view(ms@),
            want == query_captures_of(mv, source@),
            captures_within(mv, source@.len() as int),
            query_matches_view(out@) == want.subrange(0, i as int),
        decreases ms.len() - i,
    {
        let m = &ms[i];
        assert(mv[i as int] == m@.map_values(|c: RawCapture| c@));
        let mut caps: Vec<QueryCapture> = Vec::new();
        let mut j: usize = 0;
        while j < m.len()
            invariant
                i < ms@.len(),
                j <= m@.len(),
                m == ms@[i as int],
                mv == raw_matches_view(ms@),
                mv[i as int] == m@.map_values(|c: RawCapture| c@),
                captures_within(mv, source@.len() as int),
                caps@.map_values(|c: QueryCapture| c@) == mv[i as int].subrange(0, j as int).map_values(
                    |c: RawCaptureV| query_capture_of(c, source@),
                ),
            decreases m.len() - j,
        {
            let c = &m[j];
            assert(mv[i as int][j as int] == c@);
            let bytes = slice_subrange(source, c.start_byte, c.end_byte);
            let d = QueryCapture {
                name: c.name.clone(),
                text: decode_lossy(bytes),
                start_byte: c.start_byte,
                end_byte: c.end_byte,
                row: c.row,
            };
            assert(d@ == query_capture_of(c@, source@));
            let ghost pre = caps@.map_values(|c: QueryCapture| c@);
            caps.push(d);
            assert(caps@.map_values(|c: QueryCapture| c@) =~= pre.push(d@));
            assert(mv[i as int].subrange(0, j + 1) =~= mv[i as int].subrange(0, j as int).push(c@));
            assert(caps@.map_values(|c: QueryCapture| c@) =~= mv[i as int].subrange(0, j + 1).map_values(
                |c: RawCaptureV| query_capture_of(c, source@),
            ));
            j = j + 1;
        }
        assert(mv[i as int].subrange(0, m@.len() as int) =~= mv[i as int]);
        let ghost pre = query_matches_view(out@);
        let ghost cv = caps@.map_values(|c: QueryCapture| c@);
        out.push(caps);
        assert(want[i as int] == cv);
        assert(query_matches_view(out@) =~= pre.push(cv));
        assert(want.subrange(0, i + 1) =~= want.subrange(0, i as int).push(want[i as int]));
        assert(query_matches_view(out@) =~= want.subrange(0, i + 1));
        i = i + 1;
    }
    assert(want.subrange(0, want.len() as int) =~= want);
    out
}

/// The per-file time cap, in milliseconds.
pub open spec fn cap_ms() -> int {
    PER_FILE_TIMEOUT_SECS * 1000
}

/// The structure events of a file: none when the parse took longer than
/// the cap or the definitions query gave no matches, else the events of
/// its captures.
pub open spec fn spec_file_structure(path: Seq<char>, lang: Language, scm: Seq<char>, source: Seq<u8>, parse_ms: u64) -> Seq<
    crate::pipeline::channels::StructureEventV,
> {
    if parse_ms > cap_ms() {
        Seq::empty()
    } else {
        match ts_matches(lang, scm, source) {
            Some(ms) => match_events(path, def_captures_of(ms, source)),
            None => Seq::empty(),
        }
    }
}

/// Pass 1 on a file's bytes: parses them, runs the definitions query `scm`
/// and reads the structure events off its matches. Gives the events and
/// the milliseconds the parse took.
pub fn file_structure(path: &str, lang: Language, scm: &str, source: &[u8]) -> (r: (Vec<StructureEvent>, u64))
    ensures
        r.0@.map_values(|e: StructureEvent| e@) == spec_file_structure(path@, lang, scm@, source@, r.1),
{
    let run = run_query(lang, scm, source);
    let parse_ms = run.parse_ms;
    if parse_ms > PER_FILE_TIMEOUT_SECS * 1000 {
        let none: Vec<StructureEvent> = Vec::new();
        assert(none@.map_values(|e: StructureEvent| e@) =~= Seq::<crate::pipeline::channels::StructureEventV>::empty());
        return (none, parse_ms);
    }
    match run.matches {
        Some(ms) => {
            let defs = def_captures(&ms, source);
            (structure_events(path, &defs), parse_ms)
        },
        None => {
            let none: Vec<StructureEvent> = Vec::new();
            assert(none@.map_values(|e: StructureEvent| e@) =~= Seq::<crate::pipeline::channels::StructureEventV>::empty());
            (none, parse_ms)
        },
    }
}

/// The captures a query run gives, with their texts; none when the run
/// failed.
pub open spec fn run_captures(lang: Language, scm: Seq<char>, source: Seq<u8>) -> Seq<Seq<QueryCaptureV>> {
    match ts_matches(lang, scm, source) {
        Some(ms) => query_captures_of(ms, source),
        None => Seq::empty(),
    }
}

fn captures_of_run(run: &QueryRun, source: &[u8]) -> (r: Vec<Vec<QueryCapture>>)
    requires
        match run.matches {
            Some(ms) => captures_within(raw_matches_view(ms@), source@.len() as int),
            None => true,
        },
    ensures
        query_matches_view(r@) == match run.matches {
            Some(ms) => query_captures_of(raw_matches_view(ms@), source@),
            None => Seq::<Seq<QueryCaptureV>>::empty(),
        },
{
    match &run.matches {
        Some(ms) => query_captures(ms, source),
        None => {
            let none: Vec<Vec<QueryCapture>> = Vec::new();
            assert(query_matches_view(none@) =~= Seq::<Seq<QueryCaptureV>>::empty());
            none
        },
    }
}

/// Whether no `import.module` capture is a lone quote character.
pub fn modules_strippable_check(ms: &Vec<Vec<QueryCapture>>) -> (b: bool)
    ensures
        b == modules_strippable(query_matches_view(ms@)),
{
    let ghost mv = query_matches_view(ms@);
    let mut i: usize = 0;
    while i < ms.len()
        invariant
            i <= ms@.len(),
            mv == query_matches_view(ms@),
            forall|a: int, c: int|
                0 <= a < i && 0 <= c < mv[a].len() && (#[trigger] mv[a][c]).name == "import.module"@ ==> !(trim(
                    mv[a][c].text,
                ).len() == 1 && is_quote(trim(mv[a][c].text)[0])),
        decreases ms.len() - i,
    {
        let m = &ms[i];
        assert(mv[i as int] == m@.map_values(|c: QueryCapture| c@));
        let mut j: usize = 0;
        while j < m.len()
            invariant
                i < ms@.len(),
                j <= m@.len(),
                m == ms@[i as int],
                mv == query_matches_view(ms@),
                mv[i as int] == m@.map_values(|c: QueryCapture| c@),
                forall|a: int, c: int|
                    0 <= a < i && 0 <= c < mv[a].len() && (#[trigger] mv[a][c]).name == "import.module"@ ==> !(trim(
                        mv[a][c].text,
                    ).len() == 1 && is_quote(trim(mv[a][c].text)[0])),
                forall|c: int|
                    0 <= c < j && (#[trigger] mv[i as int][c]).name == "import.module"@ ==> !(trim(
                        mv[i as int][c].text,
                    ).len() == 1 && is_quote(trim(mv[i as int][c].text)[0])),
            decreases m.len() - j,
        {
            let cap = &m[j];
            assert(mv[i as int][j as int] == cap@);
            if str_eq(cap.name.as_str(), "import.module") {
                let t = trim_chars(&chars_of(cap.text.as_str()));
                if t.len() == 1 && (t[0] == '"' || t[0] == '\'' || t[0] == '`') {
                    return false;
                }
            }
            j = j + 1;
        }
        i = i + 1;
    }
    true
}

/// Whether every inline-handler capture's row fits.
pub fn rows_fit_check(ms: &Vec<Vec<QueryCapture>>) -> (b: bool)
    ensures
        b == rows_fit(query_matches_view(ms@)),
{
    let ghost mv = query_matches_view(ms@);
    let mut i: usize = 0;
    while i < ms.len()
        invariant
            i <= ms@.len(),
            mv == query_matches_view(ms@),
            forall|a: int, c: int|
                0 <= a < i && 0 <= c < mv[a].len() && (#[trigger] mv[a][c]).name == "route.inline_handler"@ ==> (
                mv[a][c].row as u32) < u32::MAX,
        decreases ms.len() - i,
    {
        let m = &ms[i];
        assert(mv[i as int] == m@.map_values(|c: QueryCapture| c@));
        let mut j: usize = 0;
        while j < m.len()
            invariant
                i < ms@.len(),
                j <= m@.len(),
                m == ms@[i as int],
                mv == query_matches_view(ms@),
                mv[i as int] == m@.map_values(|c: QueryCapture| c@),
                forall|a: int, c: int|
                    0 <= a < i && 0 <= c < mv[a].len() && (#[trigger] mv[a][c]).name == "route.inline_handler"@ ==> (
                    mv[a][c].row as u32) < u32::MAX,
                forall|c: int|
                    0 <= c < j && (#[trigger] mv[i as int][c]).name == "route.inline_handler"@ ==> (
                    mv[i as int][c].row as u32) < u32::MAX,
            decreases m.len() - j,
        {
            let cap = &m[j];
            assert(mv[i as int][j as int] == cap@);
            if str_eq(cap.name.as_str(), "route.inline_handler") && cap.row as u32 == u32::MAX {
                return false;
            }
            j = j + 1;
        }
        i = i + 1;
    }
    true
}

/// Pass 3 on one file: what it gives, the milliseconds its calls parse
/// took, and the milliseconds of the calls and imports runs (0 where a run
/// was not made).
pub struct CallPass {
    pub edges: Option<Vec<EdgeWriteEvent>>,
    pub parse_ms: u64,
    pub calls_ms: u64,
    pub imports_ms: u64,
}

/// The call edges of a file, as caller/callee pairs: none for a source
/// that is not UTF-8 or a parse past the cap; `None` where an imported
/// module is a lone quote character (whose inner text cannot be sliced
/// out); none when the two query runs together went past the cap; else
/// the edges of its call sites and imports.
pub open spec fn spec_file_calls(
    t: SymbolTableV,
    root: Seq<char>,
    path: Seq<char>,
    lang: Language,
    calls_scm: Seq<char>,
    imports_scm: Seq<char>,
    source: Seq<u8>,
    parse_ms: u64,
    calls_ms: u64,
    imports_ms: u64,
) -> Option<Seq<(u64, u64)>> {
    if utf8_decoded(source) is None || parse_ms > cap_ms() {
        Some(Seq::empty())
    } else {
        let calls = run_captures(lang, calls_scm, source);
        let imports = run_captures(lang, imports_scm, source);
        if !modules_strippable(imports) {
            None
        } else if calls_ms + imports_ms > cap_ms() {
            Some(Seq::empty())
        } else {
            Some(file_edges(t, file_callers(t, root, path), calls_of(calls), path, lang, imports_of(imports)))
        }
    }
}

/// Pass 3 on a file's bytes: runs the calls and imports queries and
/// resolves each call site against the symbol table.
pub fn file_calls(
    root: &str,
    path: &str,
    lang: Language,
    sym: &SymbolTable,
    calls_scm: &str,
    imports_scm: &str,
    source: &[u8],
) -> (r: CallPass)
    requires
        sym.wf(),
    ensures
        match r.edges {
            Some(e) => spec_file_calls(sym@, root@, path@, lang, calls_scm@, imports_scm@, source@, r.parse_ms, r.calls_ms, r.imports_ms)
                == Some(edge_pairs(e@)) && forall|k: int| 0 <= k < e@.len() ==> (#[trigger] e@[k]).kind == 0,
            None => spec_file_calls(sym@, root@, path@, lang, calls_scm@, imports_scm@, source@, r.parse_ms, r.calls_ms, r.imports_ms) is None,
        },
{
    let cap: u64 = PER_FILE_TIMEOUT_SECS * 1000;
    let none: Vec<EdgeWriteEvent> = Vec::new();
    assert(edge_pairs(none@) =~= Seq::<(u64, u64)>::empty());
    if decode_utf8(source).is_none() {
        return CallPass { edges: Some(none), parse_ms: 0, calls_ms: 0, imports_ms: 0 };
    }
    let calls_run = run_query(lang, calls_scm, source);
    if calls_run.parse_ms > cap {
        return CallPass { edges: Some(none), parse_ms: calls_run.parse_ms, calls_ms: calls_run.total_ms, imports_ms: 0 };
    }
    let imports_run = run_query(lang, imports_scm, source);
    let calls = captures_of_run(&calls_run, source);
    let imports = captures_of_run(&imports_run, source);
    let (parse_ms, calls_ms, imports_ms) = (calls_run.parse_ms, calls_run.total_ms, imports_run.total_ms);
    if !modules_strippable_check(&imports) {
        return CallPass { edges: None, parse_ms, calls_ms, imports_ms };
    }
    if calls_ms > cap || imports_ms > cap - calls_ms {
        return CallPass { edges: Some(none), parse_ms, calls_ms, imports_ms };
    }
    let sites = call_sites(&calls);
    let bindings = import_bindings(&imports);
    let edges = sym.call_edges(root, path, lang, &sites, &bindings);
    CallPass { edges: Some(edges), parse_ms, calls_ms, imports_ms }
}

/// Pass 4 on one file: what it gives, and the milliseconds the parse took
/// (0 where no run was made).
pub struct RoutePass {
    pub writes: Option<Vec<(NodeWriteEvent, Option<EdgeWriteEvent>)>>,
    pub parse_ms: u64,
}

/// The route nodes and handler edges of a file whose framework's route
/// query is `scm`: none for a source that is not UTF-8 or a parse past the
/// cap; `None` where an inline handler starts on a row whose number would
/// overflow; else one write per route.
pub open spec fn spec_file_routes(
    t: SymbolTableV,
    root: Seq<char>,
    path: Seq<char>,
    lang: Language,
    scm: Seq<char>,
    source: Seq<u8>,
    parse_ms: u64,
) -> Option<Seq<(NodeWriteEventV, Option<(u64, u64, u8)>)>> {
    if utf8_decoded(source) is None || parse_ms > cap_ms() {
        Some(Seq::empty())
    } else {
        let ms = run_captures(lang, scm, source);
        if !rows_fit(ms) {
            None
        } else {
            Some(routes_of(ms).map_values(|m| spec_route_write(t, root, path, m)))
        }
    }
}

/// Pass 4 on a file's bytes: runs its framework's route query `scm` and
/// turns each route into its node and handler edge.
pub fn file_routes(root: &str, path: &str, lang: Language, sym: &SymbolTable, scm: &str, source: &[u8]) -> (r: RoutePass)
    requires
        sym.wf(),
    ensures
        match r.writes {
            Some(w) => spec_file_routes(sym@, root@, path@, lang, scm@, source@, r.parse_ms) == Some(route_writes_view(w@)),
            None => spec_file_routes(sym@, root@, path@, lang, scm@, source@, r.parse_ms) is None,
        },
{
    let none: Vec<(NodeWriteEvent, Option<EdgeWriteEvent>)> = Vec::new();
    assert(route_writes_view(none@) =~= Seq::<(NodeWriteEventV, Option<(u64, u64, u8)>)>::empty());
    if decode_utf8(source).is_none() {
        return RoutePass { writes: Some(none), parse_ms: 0 };
    }
    let run = run_query(lang, scm, source);
    if run.parse_ms > PER_FILE_TIMEOUT_SECS * 1000 {
        return RoutePass { writes: Some(none), parse_ms: run.parse_ms };
    }
    let caps = captures_of_run(&run, source);
    if !rows_fit_check(&caps) {
        return RoutePass { writes: None, parse_ms: run.parse_ms };
    }
    let routes = extract_routes(&caps);
    RoutePass { writes: Some(route_events(root, path, &routes, sym)), parse_ms: run.parse_ms }
}

} // verus!
