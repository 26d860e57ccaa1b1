use grafy::language::{Language, ParseError};
use grafy::pipeline::cache::CacheBudget;
use grafy::pipeline::queries::{calls_scm, definitions_scm, imports_scm, query_file, QueryKind};
use grafy::routes::{routes_scm, Framework};
use grafy::pipeline::channels::{DefinitionEvent, StructureEvent, StructureKind};
use grafy::pipeline::incremental::{classify, file_record, FileStatus};
use grafy::pipeline::pass1::{capture_to_kind, file_events, structure_events, structure_to_node_kind, DefCapture};
use grafy::pipeline::pass2::{process_event, sep};
use grafy::pipeline::pass3::{
    build_symbol_table, call_sites, import_bindings, lang_family, last_segment, strip_quotes, unique_files, CallSite,
    ImportBinding, LangFamily, QueryCapture,
};
use grafy::pipeline::pass4::{extract_routes, route_events, strip_route_quotes};
use grafy::pipeline::{count_report, plan_index, to_dot, walk_file, IndexReport, WalkEntry};
use grafy::stackgraphs::{resolve, ResolveError};
use grafy::store::{batch_ready, node_id, FileRecord, NodeKind};

fn make_record(bytes: &[u8]) -> FileRecord {
    FileRecord { blake3: *blake3::hash(bytes).as_bytes(), mtime_ns: 0, lang: "rust".into() }
}

#[test]
fn new_when_no_prev() {
    assert_eq!(classify(None, Some(b"fn x() {}")), FileStatus::New);
}

#[test]
fn unchanged_when_hash_matches() {
    let content = b"fn x() {}";
    let rec = make_record(content);
    assert_eq!(classify(Some(&rec), Some(content)), FileStatus::Unchanged);
}

#[test]
fn modified_when_hash_differs() {
    let rec = make_record(b"fn x() {}");
    assert_eq!(classify(Some(&rec), Some(b"fn y() {}")), FileStatus::Modified);
}

#[test]
fn unchanged_even_if_mtime_changed() {
    let content = b"fn x() {}";
    let mut rec = make_record(content);
    rec.mtime_ns = 99_999_999_999;
    assert_eq!(classify(Some(&rec), Some(content)), FileStatus::Unchanged);
}

#[test]
fn unreadable_file_is_modified() {
    let rec = make_record(b"fn x() {}");
    assert_eq!(classify(Some(&rec), None), FileStatus::Modified);
}

#[test]
fn file_record_hashes_contents() {
    let r = file_record(Some(b"abc"), 7, "python").unwrap();
    assert_eq!(r.blake3, *blake3::hash(b"abc").as_bytes());
    assert_eq!(r.mtime_ns, 7);
    assert_eq!(r.lang, "python");
    assert!(file_record(None, 7, "python").is_none());
}

#[test]
fn cache_budget_defaults_and_refuses_past_limit() {
    let mut b = CacheBudget::new(Some("1"));
    assert!(b.try_reserve(1_000_000));
    assert!(b.try_reserve(48_576));
    assert!(!b.try_reserve(1));
    let mut d = CacheBudget::new(Some("not a number"));
    assert!(d.try_reserve(1024 * 1024 * 1024));
    assert!(!d.try_reserve(1));
    let mut e = CacheBudget::new(None);
    assert!(e.try_reserve(1024 * 1024 * 1024));
}

#[test]
fn a_refused_reservation_leaves_room_for_a_smaller_one() {
    let mut b = CacheBudget::new(Some("1"));
    assert!(!b.try_reserve(2 * 1024 * 1024));
    assert_eq!(b.reserved(), 0);
    assert!(b.try_reserve(1024 * 1024));
    assert_eq!(b.reserved(), 1024 * 1024);
    assert!(!b.try_reserve(1));
    assert!(!b.try_reserve(u64::MAX));
}

#[test]
fn capture_kinds() {
    assert_eq!(capture_to_kind("function.def"), Some(StructureKind::Function));
    assert_eq!(capture_to_kind("impl.def"), Some(StructureKind::Struct));
    assert_eq!(capture_to_kind("ns.def"), Some(StructureKind::Module));
    assert_eq!(capture_to_kind("function.name"), None);
    assert_eq!(structure_to_node_kind(StructureKind::Trait), NodeKind::Trait);
}

fn cap(name: &str, start: usize, end: usize, text: Option<&str>) -> DefCapture {
    DefCapture { name: name.into(), start_byte: start, end_byte: end, text: text.map(|t| t.to_string()) }
}

#[test]
fn structure_events_need_definition_and_name() {
    let matches = vec![
        vec![cap("function.def", 0, 11, None), cap("function.name", 3, 6, Some("foo"))],
        vec![cap("struct.def", 12, 23, None), cap("x.table", 12, 13, Some("t")), cap("struct.name", 19, 22, Some("Bar"))],
        vec![cap("function.name", 0, 3, Some("orphan"))],
        vec![cap("weird.def", 0, 3, None), cap("weird.name", 0, 3, Some("w"))],
    ];
    let evs = structure_events("/r/foo.rs", &matches);
    assert_eq!(evs.len(), 2);
    assert_eq!(evs[0].kind, StructureKind::Function);
    assert_eq!(evs[0].name, "foo");
    assert_eq!((evs[0].byte_start, evs[0].byte_end), (0, 11));
    assert_eq!(evs[1].kind, StructureKind::Struct);
    assert_eq!(evs[1].name, "Bar");
}

#[test]
fn file_events_record_file_node() {
    let (f, n) = file_events("src/a.rs", b"fn a() {}", 5, Language::Rust);
    assert_eq!(f.rel_path, "src/a.rs");
    assert_eq!(f.record.lang, "rust");
    assert_eq!(n.id, node_id("src/a.rs", "src/a.rs", NodeKind::File, 0));
    assert_eq!(n.record.byte_end, 9);
}

#[test]
fn pass2_builds_fqn_with_language_separator() {
    assert_eq!(sep(Language::Rust), "::");
    assert_eq!(sep(Language::Go), "/");
    assert_eq!(sep(Language::Php), "\\");
    let ev = StructureEvent {
        file_path: "/repo/src/util.rs".into(),
        kind: StructureKind::Function,
        name: "helper".into(),
        byte_start: 4,
        byte_end: 20,
    };
    let (node, def) = process_event("/repo", &ev).unwrap();
    assert_eq!(def.fqn, "src::util::helper");
    assert_eq!(node.record.fqn, "src::util::helper");
    assert_eq!(node.record.file, "src/util.rs");
    assert_eq!(node.id, node_id("src/util.rs", "src::util::helper", NodeKind::Function, 4));
    let unknown = StructureEvent { file_path: "/repo/notes.txt".into(), ..ev };
    assert!(process_event("/repo", &unknown).is_none());
}

#[test]
fn segments_and_quotes() {
    assert_eq!(last_segment("a::b::c"), "c");
    assert_eq!(last_segment("pkg/mod.fn"), "fn");
    assert_eq!(last_segment("plain"), "plain");
    assert_eq!(last_segment("a\\b"), "b");
    assert_eq!(strip_quotes("  \"os.path\" "), "os.path");
    assert_eq!(strip_quotes("'x'"), "x");
    assert_eq!(strip_quotes("`y`"), "y");
    assert_eq!(strip_quotes("\"z'"), "\"z'");
    assert_eq!(strip_route_quotes("\""), "\"");
    assert_eq!(strip_route_quotes(" '/users' "), "/users");
    assert_eq!(lang_family(Language::Python), LangFamily::A);
    assert_eq!(lang_family(Language::Cpp), LangFamily::B);
}

fn def(file: &str, fqn: &str, start: usize) -> DefinitionEvent {
    DefinitionEvent { file_path: file.into(), fqn: fqn.into(), kind: StructureKind::Function, byte_start: start, byte_end: start + 5 }
}

#[test]
fn symbol_table_resolves_module_scope_first() {
    let events = vec![
        def("/r/a.py", "a.run", 0),
        def("/r/b.py", "b.run", 0),
        def("/r/b.py", "b.stop", 10),
        def("/r/c.rs", "c::Thing::run", 0),
    ];
    let t = build_symbol_table(&events, "/r");
    let id_a_run = node_id("a.py", "a.run", NodeKind::Function, 0);
    let id_b_run = node_id("b.py", "b.run", NodeKind::Function, 0);
    assert_eq!(t.resolve_short("run", "/r/b.py"), Some(id_b_run));
    assert_eq!(t.resolve_short("run", "/r/z.py"), Some(id_a_run));
    assert_eq!(t.resolve_fqn("b.stop"), Some(node_id("b.py", "b.stop", NodeKind::Function, 10)));
    assert_eq!(t.resolve_fqn("nope"), None);
    assert_eq!(t.all_by_short_name("run").len(), 3);
}

#[test]
fn family_a_uses_imports() {
    let events = vec![def("/r/lib/util.py", "lib.util.helper", 0)];
    let t = build_symbol_table(&events, "/r");
    let site = CallSite { name: "helper".into(), receiver: None };
    let imports = vec![ImportBinding { name: "helper".into(), module: "lib.util".into() }];
    let id = node_id("lib/util.py", "lib.util.helper", NodeKind::Function, 0);
    // Found by short name first.
    assert_eq!(t.resolve_family_a(&site, "/r/main.py", &imports), vec![id]);
    let miss = CallSite { name: "other".into(), receiver: None };
    assert!(t.resolve_family_a(&miss, "/r/main.py", &imports).is_empty());
}

#[test]
fn family_b_falls_back_to_all_by_short_name() {
    let events = vec![def("/r/x.rs", "x::A::draw", 0), def("/r/y.rs", "y::B::draw", 0)];
    let t = build_symbol_table(&events, "/r");
    let site = CallSite { name: "paint".into(), receiver: Some("shape".into()) };
    assert!(t.resolve_family_b(&site, "/r/z.rs", &vec![]).is_empty());
    let site = CallSite { name: "draw".into(), receiver: None };
    assert_eq!(t.resolve_family_b(&site, "/r/z.rs", &vec![]).len(), 1);
}

#[test]
fn call_edges_are_deduplicated() {
    let events = vec![def("/r/m.py", "m.a", 0), def("/r/m.py", "m.b", 10)];
    let t = build_symbol_table(&events, "/r");
    let sites = vec![
        CallSite { name: "b".into(), receiver: None },
        CallSite { name: "b".into(), receiver: None },
    ];
    let edges = t.call_edges("/r", "/r/m.py", Language::Python, &sites, &vec![]);
    let a = node_id("m.py", "m.a", NodeKind::Function, 0);
    let b = node_id("m.py", "m.b", NodeKind::Function, 10);
    assert_eq!(edges.len(), 1);
    assert_eq!((edges[0].from, edges[0].to, edges[0].kind), (a, b, 0));
}

fn qc(name: &str, text: &str, start: usize, end: usize, row: usize) -> QueryCapture {
    QueryCapture { name: name.into(), text: text.into(), start_byte: start, end_byte: end, row }
}

#[test]
fn call_sites_and_imports_from_captures() {
    let calls = vec![
        vec![qc("call.receiver", "self.db", 0, 7, 0), qc("_anchor", "x", 0, 1, 0), qc("call.name", "save", 8, 12, 0)],
        vec![qc("call.receiver", "x", 0, 1, 0)],
    ];
    let sites = call_sites(&calls);
    assert_eq!(sites.len(), 1);
    assert_eq!(sites[0].name, "save");
    assert_eq!(sites[0].receiver.as_deref(), Some("self.db"));
    let imports = vec![
        vec![qc("import.module", "\"./util/fmt\"", 0, 5, 0)],
        vec![qc("import.name", "join", 0, 4, 1), qc("import.module", "os.path", 5, 12, 1)],
    ];
    let b = import_bindings(&imports);
    assert_eq!((b[0].name.as_str(), b[0].module.as_str()), ("fmt", "./util/fmt"));
    assert_eq!((b[1].name.as_str(), b[1].module.as_str()), ("join", "os.path"));
}

#[test]
fn unique_files_first_appearance() {
    let events = vec![def("/r/a.py", "a.x", 0), def("/r/b.txt", "b", 0), def("/r/a.py", "a.y", 9), def("/r/c.go", "c/z", 0)];
    let f = unique_files(&events);
    assert_eq!(f, vec![("/r/a.py".to_string(), Language::Python), ("/r/c.go".to_string(), Language::Go)]);
}

#[test]
fn routes_from_captures_and_events() {
    let matches = vec![
        vec![
            qc("route.method", "get", 10, 13, 2),
            qc("route.pattern", "\"/users\"", 14, 22, 2),
            qc("route.handler", "list_users", 24, 34, 2),
        ],
        vec![qc("route.method", "post", 40, 44, 5), qc("route.pattern", "'/x'", 45, 49, 5), qc("route.inline_handler", "() => 1", 50, 57, 5)],
        vec![qc("route.method", "put", 60, 63, 7)],
    ];
    let routes = extract_routes(&matches);
    assert_eq!(routes.len(), 2);
    assert_eq!(routes[0].method, "GET");
    assert_eq!(routes[0].pattern, "/users");
    assert_eq!((routes[0].byte_start, routes[0].byte_end), (10, 34));
    assert_eq!(routes[1].handler_name, None);
    assert_eq!(routes[1].handler_line, 6);
    let events = vec![def("/r/app.py", "app.list_users", 100)];
    let t = build_symbol_table(&events, "/r");
    let w = route_events("/r", "/r/app.py", &routes, &t);
    assert_eq!(w[0].0.record.fqn, "GET /users");
    assert_eq!(w[0].0.record.kind, NodeKind::Route);
    let handler = node_id("app.py", "app.list_users", NodeKind::Function, 100);
    let e = w[0].1.unwrap();
    assert_eq!((e.from, e.to, e.kind), (w[0].0.id, handler, 1));
    assert!(w[1].1.is_none());
}

#[test]
fn report_tally_and_dot() {
    let kinds = vec![NodeKind::File, NodeKind::Function, NodeKind::Function, NodeKind::Route];
    let r = count_report(&kinds, &vec![0, 0, 2, 1], vec![0, 1], 3, 1, 2, 0);
    assert_eq!(r.files, 1);
    assert_eq!(r.functions, 2);
    assert_eq!(r.routes, 1);
    assert_eq!(r.calls, 2);
    assert_eq!(r.scip_edges, 1);
    assert_eq!(r.total_nodes(), 4);
    assert!(r.has_language(Language::Python));
    assert!(!r.has_language(Language::Go));
    let dot = to_dot(&IndexReport { files: 1, functions: 2, ..Default::default() }, "/repo");
    assert_eq!(
        dot,
        "digraph grafy {\n  rankdir=LR;\n  root [label=\"/repo\"];\n  nodes [label=\"files=1 modules=0 functions=2 classes=0 structs=0 enums=0 traits=0 methods=0\"];\n  root -> nodes;\n}\n"
    );
}

fn walked(path: &str, rel: &str, lang: Language, status: FileStatus) -> WalkEntry {
    WalkEntry { path: path.into(), rel_path: rel.into(), language: lang, status }
}

#[test]
fn plan_sorts_walk_into_work_sweep_and_deleted() {
    let walk = vec![
        walked("/r/a.rs", "a.rs", Language::Rust, FileStatus::Unchanged),
        walked("/r/b.rs", "b.rs", Language::Rust, FileStatus::Modified),
        walked("/r/c.py", "c.py", Language::Python, FileStatus::New),
    ];
    let prev = vec!["a.rs".to_string(), "b.rs".to_string(), "gone.rs".to_string()];
    let p = plan_index(&walk, &prev);
    assert_eq!((p.new_count, p.unchanged_count, p.modified_count), (1, 1, 1));
    assert_eq!(p.work.iter().map(|w| w.path.as_str()).collect::<Vec<_>>(), vec!["/r/b.rs", "/r/c.py"]);
    assert_eq!(p.to_sweep, vec!["b.rs".to_string()]);
    assert_eq!(p.deleted, vec!["gone.rs".to_string()]);
    assert_eq!(p.languages_seen, vec![0, 1]);
    assert!(!p.nothing_changed());
    let still = plan_index(&vec![walked("/r/a.rs", "a.rs", Language::Rust, FileStatus::Unchanged)], &vec!["a.rs".into()]);
    assert!(still.nothing_changed());
}

#[test]
fn walk_file_needs_known_extension() {
    assert_eq!(walk_file("/r", "/r/src/x.ts"), Some(("src/x.ts".to_string(), Language::TypeScript)));
    assert_eq!(walk_file("/r", "/r/README.md"), None);
}

#[test]
fn writer_batches_by_size_or_time() {
    assert!(!batch_ready(10, 5));
    assert!(batch_ready(256, 0));
    assert!(batch_ready(1, 50));
}

#[test]
fn parse_error_messages() {
    let e = ParseError::Timeout { path: "a.rs".into(), timeout_secs: 5 };
    assert_eq!(
        e.message(),
        "a.rs: parse exceeded 5s. File too large or grammar pathology — split the file or open an issue with a minimal repro."
    );
    let e = ParseError::UnsupportedLanguage { path: "x.zz".into(), lang: "zz".into() };
    assert_eq!(e.message(), "x.zz: unsupported language `zz`. Add a grammar in grafy-parser/Cargo.toml or open an issue.");
}

#[test]
fn stack_graph_resolution_is_refused() {
    assert_eq!(resolve(), Err(ResolveError::NotYetImplemented));
    assert_eq!(
        ResolveError::NotYetImplemented.message(),
        "stack-graphs resolver not yet implemented (M2). Use the M1 heuristic resolver for now."
    );
}

#[test]
fn unchanged_repository_plans_nothing() {
    let walk = vec![
        walked("/r/a.rs", "a.rs", Language::Rust, FileStatus::Unchanged),
        walked("/r/b.py", "b.py", Language::Python, FileStatus::Unchanged),
    ];
    let p = plan_index(&walk, &vec!["b.py".to_string(), "a.rs".to_string()]);
    assert!(p.work.is_empty());
    assert!(p.to_sweep.is_empty());
    assert!(p.deleted.is_empty());
    assert_eq!(p.unchanged_count, 2);
    assert!(p.nothing_changed());
}

#[test]
fn query_sources_are_named_by_language_and_kind() {
    assert_eq!(definitions_scm(Language::Rust), "rust/definitions.scm");
    assert_eq!(calls_scm(Language::Python), "python/calls.scm");
    assert_eq!(imports_scm(Language::Tsx), "tsx/imports.scm");
    assert_eq!(query_file(Language::Go, QueryKind::Calls), "go/calls.scm");
    assert_eq!(routes_scm(Framework::FastApi), "routes/fastapi.scm");
    assert_eq!(routes_scm(Framework::Gin), "routes/gin.scm");
    assert_eq!(routes_scm(Framework::Express), "routes/express.scm");
}
