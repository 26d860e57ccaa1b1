use grafy::language::Language;
use grafy::multimap::StrMultiMap;
use grafy::scip::detect::{detected_indexers, probes, version_line, IndexerInfo, ProbeLookup};
use grafy::scip::index::{decode_scip_index, documents_sorted, ScipDocument, ScipOccurrence};
use grafy::scip::ingest::{
    enclosing_node, fqn_tail, ingest_scip_with_snapshot, line_col_to_byte, line_offsets, lookup_callee,
    snapshot_indexes, FileNode,
};
use grafy::scip::runner::{build_command, runner_step, CommandPaths, RepoLayout, RunnerPoll, RunnerStep};
use grafy::store::{NodeKind, NodeRecord};
use protobuf::Message;

#[test]
fn ingest_fqn_tail_strips_separators() {
    assert_eq!(fqn_tail("foo::bar::baz"), "baz");
    assert_eq!(fqn_tail("module.Class.method"), "method");
    assert_eq!(fqn_tail("singleton"), "singleton");
}

#[test]
fn lookup_callee_handles_local() {
    let m: StrMultiMap<u64> = StrMultiMap::new();
    assert!(lookup_callee(&m, "local 42").is_none());
}

#[test]
fn lookup_callee_strips_descriptor_sigils() {
    let mut m: StrMultiMap<u64> = StrMultiMap::new();
    m.push("Flask", 100);
    let sym = "scip-python pypi flask 1.0.0 `src/flask/app`/Flask#";
    assert_eq!(lookup_callee(&m, sym), Some(100));
}

#[test]
fn enclosing_picks_smallest_range() {
    let nodes = vec![
        FileNode { id: 1, start: 0, end: 100 },
        FileNode { id: 2, start: 10, end: 50 },
        FileNode { id: 3, start: 200, end: 300 },
    ];
    assert_eq!(enclosing_node(&nodes, 25), Some(2));
    assert_eq!(enclosing_node(&nodes, 75), Some(1));
    assert_eq!(enclosing_node(&nodes, 250), Some(3));
    assert_eq!(enclosing_node(&nodes, 500), None);
}

#[test]
fn line_col_to_byte_basic() {
    let offsets = vec![0, 5, 10];
    assert_eq!(line_col_to_byte(&offsets, 0, 0), Some(0));
    assert_eq!(line_col_to_byte(&offsets, 1, 2), Some(7));
    assert_eq!(line_col_to_byte(&offsets, 2, 0), Some(10));
    assert_eq!(line_col_to_byte(&offsets, 3, 0), None);
}

#[test]
fn line_col_to_byte_rejects_negative() {
    let offsets = vec![0, 5];
    assert_eq!(line_col_to_byte(&offsets, -1, 0), None);
    assert_eq!(line_col_to_byte(&offsets, 0, -3), None);
}

#[test]
fn enclosing_tie_keeps_first() {
    let nodes = vec![FileNode { id: 7, start: 0, end: 10 }, FileNode { id: 8, start: 0, end: 10 }];
    assert_eq!(enclosing_node(&nodes, 3), Some(7));
}

#[test]
fn line_offsets_follow_newlines() {
    assert_eq!(line_offsets(b"abcd\nefgh\nij"), vec![0, 5, 10]);
    assert_eq!(line_offsets(b""), vec![0]);
    assert_eq!(line_offsets(b"\n\n"), vec![0, 1, 2]);
}

#[test]
fn lookup_callee_trims_method_and_backticks() {
    let mut m: StrMultiMap<u64> = StrMultiMap::new();
    m.push("run", 5);
    m.push("run", 6);
    m.push("weird name", 9);
    assert_eq!(lookup_callee(&m, "scip-python pypi flask 1.0.0 app/run()."), Some(5));
    assert_eq!(lookup_callee(&m, "scip-python pypi flask 1.0.0 app/`weird name`#"), Some(9));
    assert_eq!(lookup_callee(&m, "scip-python pypi flask"), None);
    assert_eq!(lookup_callee(&m, "scip-python pypi flask 1.0.0 app/#"), None);
}

fn rec(fqn: &str, kind: NodeKind, file: &str, start: u32, end: u32) -> NodeRecord {
    NodeRecord { fqn: fqn.into(), kind, file: file.into(), byte_start: start, byte_end: end }
}

fn occ(symbol: &str, roles: i32, line: i32, col: i32) -> ScipOccurrence {
    ScipOccurrence { symbol: symbol.into(), symbol_roles: roles, range: vec![line, col, col + 3], enclosing_range: vec![] }
}

#[test]
fn ingest_emits_edges_and_counts_skips() {
    let entries = vec![
        ("app.py".to_string(), 1u64, rec("app.main", NodeKind::Function, "app.py", 0, 40)),
        ("app.py".to_string(), 2u64, rec("app.helper", NodeKind::Function, "app.py", 41, 80)),
        ("lib.py".to_string(), 3u64, rec("lib.Flask", NodeKind::Class, "lib.py", 0, 10)),
    ];
    let snap = snapshot_indexes(&entries);
    let docs = vec![
        ScipDocument {
            relative_path: "app.py".into(),
            occurrences: vec![
                occ("scip-python pypi x 1 lib/Flask#", 0, 1, 2),
                occ("scip-python pypi x 1 lib/Flask#", 1, 1, 2),
                occ("scip-python pypi x 1 app/helper().", 0, 5, 1),
                occ("scip-python pypi x 1 app/nothing().", 0, 1, 0),
                occ("scip-python pypi x 1 app/main().", 0, 0, 3),
                occ("", 0, 0, 0),
            ],
        },
        ScipDocument { relative_path: "other.py".into(), occurrences: vec![occ("scip-python pypi x 1 lib/Flask#", 0, 0, 0)] },
    ];
    // app.py: lines start at 0, 20, 41, 60, 70, 75.
    let tables = vec![Some(vec![0, 20, 41, 60, 70, 75]), None];
    let out = ingest_scip_with_snapshot(&docs, &snap, &tables, "scip-python");
    assert_eq!(out.edges, vec![(1, 3)]);
    assert_eq!(out.report.occurrences_seen, 4);
    assert_eq!(out.report.edges_emitted, 1);
    assert_eq!(out.report.edges_skipped_no_match, 1);
    assert_eq!(out.report.indexer, "scip-python");
}

#[test]
fn ingest_unreadable_source_skips() {
    let entries = vec![("a.rs".to_string(), 1u64, rec("a::f", NodeKind::Function, "a.rs", 0, 10))];
    let snap = snapshot_indexes(&entries);
    let docs = vec![ScipDocument { relative_path: "a.rs".into(), occurrences: vec![occ("rust-analyzer cargo a 1 f().", 0, 0, 1)] }];
    let out = ingest_scip_with_snapshot(&docs, &snap, &vec![None], "rust-analyzer");
    assert!(out.edges.is_empty());
    assert_eq!(out.report.occurrences_seen, 1);
    assert_eq!(out.report.edges_skipped_no_match, 1);
}

#[test]
fn snapshot_sorts_nodes_by_start_then_end_descending() {
    let entries = vec![
        ("f.rs".to_string(), 1u64, rec("f::inner", NodeKind::Function, "f.rs", 10, 20)),
        ("f.rs".to_string(), 2u64, rec("f::outer", NodeKind::Module, "f.rs", 10, 90)),
        ("f.rs".to_string(), 3u64, rec("f::first", NodeKind::Function, "f.rs", 0, 5)),
    ];
    let snap = snapshot_indexes(&entries);
    let nodes = snap.nodes_of("f.rs").unwrap();
    let ids: Vec<u64> = nodes.iter().map(|n| n.id).collect();
    assert_eq!(ids, vec![3, 2, 1]);
    assert!(snap.nodes_of("g.rs").is_none());
    assert_eq!(snap.fqn_map().get("inner"), Some(&vec![1]));
    assert_eq!(snap.fqn_map().get("f::outer"), Some(&vec![2]));
}

#[test]
fn decode_rejects_garbage() {
    let r = decode_scip_index("x.scip", &[0xff, 0xff, 0xff]);
    assert_eq!(r.err().unwrap(), "parse scip x.scip — file may be truncated");
}

#[test]
fn decode_reads_documents() {
    let mut o = scip::types::Occurrence::new();
    o.symbol = "scip-go gomod m v f().".into();
    o.symbol_roles = 1;
    o.range = vec![3, 4, 9];
    let mut d = scip::types::Document::new();
    d.relative_path = "main.go".into();
    d.occurrences.push(o);
    let mut idx = scip::types::Index::new();
    idx.documents.push(d);
    let bytes = idx.write_to_bytes().unwrap();
    let docs = decode_scip_index("i.scip", &bytes).unwrap();
    assert_eq!(docs.len(), 1);
    assert_eq!(docs[0].relative_path, "main.go");
    assert_eq!(docs[0].occurrences[0].symbol, "scip-go gomod m v f().");
    assert_eq!(docs[0].occurrences[0].symbol_roles, 1);
    assert_eq!(docs[0].occurrences[0].range, vec![3, 4, 9]);
}

fn none_lookups() -> Vec<ProbeLookup> {
    probes().iter().map(|_| ProbeLookup { binary: None, version_output: None, elapsed_ms: 0 }).collect()
}

#[test]
fn detect_does_not_panic() {
    let _ = detected_indexers(&none_lookups());
}

#[test]
fn detect_reports_answering_binaries_in_table_order() {
    let mut l = none_lookups();
    l[4] = ProbeLookup {
        binary: Some("/usr/bin/scip-go".into()),
        version_output: Some("  v0.1.2 \nmore".into()),
        elapsed_ms: 30,
    };
    l[0] = ProbeLookup { binary: Some("/opt/scip-python".into()), version_output: Some("0.6.0\n".into()), elapsed_ms: 2000 };
    let found = detected_indexers(&l);
    assert_eq!(found.len(), 2);
    assert_eq!(found[0].name, "scip-python");
    assert_eq!(found[0].version, "0.6.0");
    assert_eq!(found[1].language, Language::Go);
    assert_eq!(found[1].version, "v0.1.2");
    assert_eq!(found[1].binary, "/usr/bin/scip-go");
}

#[test]
fn silent_or_slow_probes_are_not_detected() {
    let mut l = none_lookups();
    l[0] = ProbeLookup { binary: Some("/opt/scip-python".into()), version_output: Some("\n".into()), elapsed_ms: 5 };
    l[4] = ProbeLookup { binary: Some("/usr/bin/scip-go".into()), version_output: Some("v1\n".into()), elapsed_ms: 2001 };
    l[7] = ProbeLookup { binary: Some("/usr/bin/rust-analyzer".into()), version_output: None, elapsed_ms: 1 };
    assert!(detected_indexers(&l).is_empty());
}

#[test]
fn version_line_is_first_trimmed_line() {
    assert_eq!(version_line("rust-analyzer 1.80\n"), Some("rust-analyzer 1.80".to_string()));
    assert_eq!(version_line("   \nx"), None);
}

fn info(name: &str, lang: Language) -> IndexerInfo {
    IndexerInfo {
        language: lang,
        binary: format!("/bin/{name}"),
        version: "1".into(),
        name: name.into(),
        install_hint: String::new(),
    }
}

fn paths() -> CommandPaths {
    CommandPaths {
        repo: "/r".into(),
        repo_name: Some("r".into()),
        out_path: "/r/.grafy/scip/x.scip".into(),
        compdb_path: "/r/compile_commands.json".into(),
    }
}

const EMPTY: RepoLayout = RepoLayout {
    node_modules: false,
    go_mod: false,
    pom_xml: false,
    build_gradle: false,
    build_gradle_kts: false,
    compile_commands: false,
};

#[test]
fn python_command_names_project() {
    let c = build_command(&info("scip-python", Language::Python), &paths(), EMPTY).ok().unwrap();
    assert_eq!(
        c.args,
        vec!["index", "--output", "/r/.grafy/scip/x.scip", "--project-name", "r", "--project-version", "0.0.0", "."]
    );
    let mut p = paths();
    p.repo_name = None;
    let c = build_command(&info("scip-python", Language::Python), &p, EMPTY).ok().unwrap();
    assert_eq!(c.args[4], "grafy-index");
}

#[test]
fn prerequisites_are_checked() {
    let e = build_command(&info("scip-typescript", Language::TypeScript), &paths(), EMPTY).err().unwrap();
    assert_eq!(e, "scip-typescript needs node_modules. Run `npm install` in /r first.");
    let e = build_command(&info("scip-go", Language::Go), &paths(), EMPTY).err().unwrap();
    assert_eq!(e, "scip-go needs go.mod (Go modules). Run `go mod init` in /r first.");
    let e = build_command(&info("scip-java", Language::Java), &paths(), EMPTY).err().unwrap();
    assert_eq!(e, "scip-java needs Maven (pom.xml) or Gradle (build.gradle[.kts]). None found in /r.");
    let e = build_command(&info("scip-clang", Language::Cpp), &paths(), EMPTY).err().unwrap();
    assert_eq!(e, "scip-clang needs compile_commands.json in /r. Generate via cmake / bear / intercept-build.");
    let layout = RepoLayout { build_gradle_kts: true, compile_commands: true, ..EMPTY };
    assert_eq!(build_command(&info("scip-java", Language::Java), &paths(), layout).ok().unwrap().args, vec!["index"]);
    assert_eq!(
        build_command(&info("scip-clang", Language::Cpp), &paths(), layout).ok().unwrap().args,
        vec!["--output", "/r/.grafy/scip/x.scip", "--compdb", "/r/compile_commands.json"]
    );
    assert_eq!(build_command(&info("rust-analyzer", Language::Rust), &paths(), EMPTY).ok().unwrap().args, vec!["scip", "."]);
}

#[test]
fn unknown_indexer_has_no_template() {
    let e = build_command(&info("scip-python", Language::Go), &paths(), EMPTY).err().unwrap();
    assert_eq!(e, "no command template for indexer `scip-python` on language `go` — open an issue.");
}

#[test]
fn runner_steps() {
    let i = info("scip-go", Language::Go);
    assert!(matches!(runner_step(&i, "l.log", "o.scip", RunnerPoll::Running { elapsed_ms: 10 }), RunnerStep::Sleep));
    match runner_step(&i, "l.log", "o.scip", RunnerPoll::Running { elapsed_ms: 300_001 }) {
        RunnerStep::KillAndFail(m) => {
            assert_eq!(m, "scip-go (go): exceeded 300s wall budget — kill+skip. Set GRAFY_SCIP_DISABLE=1 to opt out.")
        },
        _ => panic!("expected a kill"),
    }
    match runner_step(&i, "l.log", "o.scip", RunnerPoll::Exited { success: false, status: "exit status: 2".into(), output_exists: false }) {
        RunnerStep::Fail(m) => assert_eq!(m, "scip-go (go): exited non-zero — see l.log for stderr. (exit status: 2)"),
        _ => panic!("expected a failure"),
    }
    match runner_step(&i, "l.log", "o.scip", RunnerPoll::Exited { success: true, status: String::new(), output_exists: false }) {
        RunnerStep::Fail(m) => {
            assert_eq!(m, "scip-go reported success but o.scip does not exist — upstream CLI may have changed.")
        },
        _ => panic!("expected a failure"),
    }
    assert!(matches!(
        runner_step(&i, "l.log", "o.scip", RunnerPoll::Exited { success: true, status: String::new(), output_exists: true }),
        RunnerStep::Done
    ));
}

#[test]
fn lookup_callee_uses_last_descriptor_identifier() {
    let mut m: StrMultiMap<u64> = StrMultiMap::new();
    m.push("run", 7);
    let sym = "scip-python pypi flask 1.0.0 `src/flask/app`/Flask#run().";
    assert_eq!(lookup_callee(&m, sym), Some(7));
    assert_eq!(lookup_callee(&m, "scip-python pypi flask 1.0.0 `src/flask/app`/Flask#"), None);
}

#[test]
fn line_col_to_byte_rejects_columns_past_the_line() {
    let offsets = vec![0, 5, 10];
    assert_eq!(line_col_to_byte(&offsets, 0, 4), Some(4));
    assert_eq!(line_col_to_byte(&offsets, 0, 5), None);
    assert_eq!(line_col_to_byte(&offsets, 0, 7), None);
    assert_eq!(line_col_to_byte(&offsets, 1, 6), None);
}

#[test]
fn ingest_fqn_tail_prefers_the_last_double_colon() {
    assert_eq!(fqn_tail("a::b.c"), "b.c");
    assert_eq!(fqn_tail("a.b::c"), "c");
    assert_eq!(fqn_tail("a.b.c"), "c");
    assert_eq!(fqn_tail("x."), "");
}

#[test]
fn documents_sort_by_path_and_keep_ties_in_order() {
    let doc = |p: &str, sym: &str| ScipDocument {
        relative_path: p.to_string(),
        occurrences: vec![ScipOccurrence { symbol: sym.to_string(), symbol_roles: 0, range: vec![1, 2, 3], enclosing_range: vec![] }],
    };
    let docs = vec![doc("b.py", "1"), doc("a.py", "2"), doc("b.py", "3"), doc("B.py", "4")];
    let r = documents_sorted(&docs);
    let got: Vec<(&str, &str)> = r.iter().map(|d| (d.relative_path.as_str(), d.occurrences[0].symbol.as_str())).collect();
    assert_eq!(got, vec![("B.py", "4"), ("a.py", "2"), ("b.py", "1"), ("b.py", "3")]);
    assert_eq!(r[0].occurrences[0].range, vec![1, 2, 3]);
}
