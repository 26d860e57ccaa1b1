use grafy::cypher::executor::GraphSnapshot;
use grafy::mcp::code::{file_passes, matching_lines, result_limit, search_mode, CodeSearch, LineMatcher, SearchMode};
use grafy::mcp::search::{
    architecture, edge_type_counts, label_counts, lookup_snippet, search_graph, search_request, snippet_bounds,
    SnippetLookup,
};
use grafy::mcp::{node_kind_label, tool_error_text, trace_depth, trace_path, GrafyServer, SearchGraphParams};
use grafy::pattern::CompiledRegex;
use grafy::store::{NodeKind, NodeRecord};

fn node(id: u64, fqn: &str, kind: NodeKind, file: &str) -> (u64, NodeRecord) {
    (id, NodeRecord { fqn: fqn.to_string(), kind, file: file.to_string(), byte_start: 0, byte_end: 4 })
}

fn graph() -> GraphSnapshot {
    GraphSnapshot {
        nodes: vec![
            node(1, "a::main", NodeKind::Function, "src/a.rs"),
            node(2, "a::helper", NodeKind::Function, "src/a.rs"),
            node(3, "b::util", NodeKind::Function, "src/b.rs"),
            node(4, "t::helper_test", NodeKind::Function, "tests/t.rs"),
            node(5, "a::Thing", NodeKind::Struct, "src/a.rs"),
            node(6, "GET /x", NodeKind::Route, "src/r.py"),
        ],
        edges: vec![(1, 2, 0), (2, 3, 0), (4, 2, 0), (1, 6, 1)],
    }
}

fn params(label: Option<&str>, name: Option<&str>, query: Option<&str>, limit: Option<i64>, offset: Option<i64>) -> SearchGraphParams {
    SearchGraphParams {
        project: "p".to_string(),
        query: query.map(|s| s.to_string()),
        label: label.map(|s| s.to_string()),
        name_pattern: name.map(|s| s.to_string()),
        qn_pattern: None,
        file_pattern: None,
        relationship: None,
        min_degree: None,
        max_degree: None,
        exclude_entry_points: None,
        include_connected: None,
        semantic_query: None,
        limit,
        offset,
    }
}

#[test]
fn server_keeps_its_root() {
    assert_eq!(GrafyServer::new("/repo".to_string()).root, "/repo");
}

#[test]
fn trace_follows_callees_level_by_level() {
    let g = graph();
    let t = trace_path(&g, "main", "outbound", 3, false);
    assert_eq!(t.start_name.as_deref(), Some("a::main"));
    assert_eq!(t.max_depth, 3);
    let names: Vec<(&str, u64)> = t.hops.iter().map(|h| (h.name.as_str(), h.depth)).collect();
    assert_eq!(names, vec![("a::helper", 1), ("b::util", 2)]);
    assert_eq!(t.hops[0].label, "Function");
    assert_eq!(t.hops[0].file, "src/a.rs");
}

#[test]
fn trace_stops_at_its_depth() {
    let g = graph();
    let t = trace_path(&g, "a::main", "outbound", 1, false);
    assert_eq!(t.hops.len(), 1);
    assert_eq!(t.hops[0].name, "a::helper");
}

#[test]
fn trace_inbound_leaves_tests_out_unless_asked() {
    let g = graph();
    let t = trace_path(&g, "helper", "inbound", 3, false);
    let names: Vec<&str> = t.hops.iter().map(|h| h.name.as_str()).collect();
    assert_eq!(names, vec!["a::main"]);
    let t = trace_path(&g, "helper", "inbound", 3, true);
    let names: Vec<&str> = t.hops.iter().map(|h| h.name.as_str()).collect();
    assert_eq!(names, vec!["a::main", "t::helper_test"]);
}

#[test]
fn trace_both_ways_lists_callees_first() {
    let g = graph();
    let t = trace_path(&g, "helper", "both", 2, false);
    let names: Vec<(&str, u64)> = t.hops.iter().map(|h| (h.name.as_str(), h.depth)).collect();
    assert_eq!(names, vec![("b::util", 1), ("a::main", 1)]);
}

#[test]
fn trace_of_unknown_name_finds_nothing() {
    let g = graph();
    let t = trace_path(&g, "nope", "both", 3, false);
    assert!(t.start_name.is_none());
    assert!(t.hops.is_empty());
}

#[test]
fn trace_depth_is_clamped() {
    assert_eq!(trace_depth(None), 3);
    assert_eq!(trace_depth(Some(0)), 1);
    assert_eq!(trace_depth(Some(-4)), 1);
    assert_eq!(trace_depth(Some(2)), 2);
    assert_eq!(trace_depth(Some(9)), 5);
}

#[test]
fn search_filters_by_label_and_text() {
    let g = graph();
    let page = search_graph(&g, &search_request(&params(Some("function"), None, Some("HELP"), None, None)));
    let names: Vec<&str> = page.results.iter().map(|h| h.name.as_str()).collect();
    assert_eq!(names, vec!["a::helper", "t::helper_test"]);
    assert_eq!(page.total, 2);
    assert!(!page.has_more);
    assert_eq!(page.limit, 200);
    assert_eq!(page.offset, 0);
    assert_eq!(page.results[0].label, "Function");
    assert_eq!(page.results[0].byte_end, 4);
}

#[test]
fn search_pages_through_regex_matches() {
    let g = graph();
    let page = search_graph(&g, &search_request(&params(None, Some("^a::"), None, Some(1), Some(1))));
    assert_eq!(page.total, 3);
    assert_eq!(page.results.len(), 1);
    assert_eq!(page.results[0].name, "a::helper");
    assert!(page.has_more);
}

#[test]
fn search_request_normalises_paging() {
    let r = search_request(&params(None, None, None, Some(0), Some(-3)));
    assert_eq!(r.limit, 1);
    assert_eq!(r.offset, 0);
    assert_eq!(r.label, "");
}

#[test]
fn invalid_name_pattern_filters_nothing() {
    let g = graph();
    let page = search_graph(&g, &search_request(&params(None, Some("("), None, None, None)));
    assert_eq!(page.total, 6);
}

#[test]
fn snippet_lookup_by_full_short_and_ambiguous_name() {
    let mut g = graph();
    assert!(matches!(lookup_snippet(&g, "a::main"), SnippetLookup::Found(0)));
    assert!(matches!(lookup_snippet(&g, "helper"), SnippetLookup::Found(1)));
    assert!(matches!(lookup_snippet(&g, "nope"), SnippetLookup::NotFound));
    g.nodes.push(node(7, "c::helper", NodeKind::Function, "src/c.rs"));
    match lookup_snippet(&g, "helper") {
        SnippetLookup::Ambiguous(names) => assert_eq!(names, vec!["a::helper", "c::helper"]),
        other => panic!("expected ambiguous, got {:?}", other),
    }
    assert!(matches!(lookup_snippet(&g, "c::helper"), SnippetLookup::Found(6)));
}

#[test]
fn snippet_bounds_fall_back_to_the_whole_file() {
    assert_eq!(snippet_bounds(10, 2, 5), Some((2, 5)));
    assert_eq!(snippet_bounds(10, 2, 10), Some((2, 10)));
    assert_eq!(snippet_bounds(4, 2, 5), None);
    assert_eq!(snippet_bounds(10, 6, 5), None);
}

#[test]
fn schema_counts_in_order_of_first_appearance() {
    let g = graph();
    assert_eq!(
        label_counts(&g),
        vec![("Function".to_string(), 4), ("Struct".to_string(), 1), ("Route".to_string(), 1)]
    );
    assert_eq!(edge_type_counts(&g), vec![("CALLS".to_string(), 3), ("ROUTES".to_string(), 1)]);
}

#[test]
fn architecture_summarises_the_graph() {
    let g = graph();
    let paths = vec!["src/a.rs".to_string(), "src/b.rs".to_string(), "x.py".to_string(), "Makefile".to_string()];
    let a = architecture(&g, &paths);
    assert_eq!(a.total_nodes, 6);
    assert_eq!(a.total_edges, 4);
    assert_eq!(a.functions, 4);
    assert_eq!(a.routes, 1);
    assert_eq!(a.file_count, 0);
    assert_eq!(a.languages, vec!["rs".to_string(), "py".to_string()]);
}

#[test]
fn tool_errors_name_tool_context_and_action() {
    assert_eq!(
        tool_error_text("search_graph", "/r", "say \"hi\""),
        "{\"error\": \"grafy search_graph: /r — say 'hi'\"}"
    );
    assert_eq!(node_kind_label(NodeKind::Route), "Route");
    assert_eq!(node_kind_label(NodeKind::Method), "Method");
}

#[test]
fn code_search_modes_gather_matches() {
    let m = LineMatcher::new("foo", false);
    let hits = matching_lines("a foo\nbar\nfoo!\n", &m);
    assert_eq!(hits, vec![(0, "a foo".to_string()), (2, "foo!".to_string())]);

    let mut compact = CodeSearch::new(SearchMode::Compact, 10);
    compact.add_file("x.rs".to_string(), hits.clone());
    compact.add_file("y.rs".to_string(), vec![]);
    assert_eq!(compact.total_grep_matches, 2);
    assert_eq!(compact.results.len(), 1);
    assert_eq!(compact.results[0].line, 1);
    assert_eq!(compact.results[0].content, "a foo");
    assert_eq!(compact.results[0].match_count, Some(2));

    let mut full = CodeSearch::new(SearchMode::Full, 10);
    full.add_file("x.rs".to_string(), hits.clone());
    let lines: Vec<usize> = full.results.iter().map(|h| h.line).collect();
    assert_eq!(lines, vec![1, 3]);
    assert!(full.results.iter().all(|h| h.match_count.is_none()));

    let mut files = CodeSearch::new(SearchMode::Files, 1);
    files.add_file("x.rs".to_string(), hits.clone());
    files.add_file("z.rs".to_string(), hits);
    assert_eq!(files.files, vec!["x.rs".to_string(), "z.rs".to_string()]);
    assert!(files.results.is_empty());
}

#[test]
fn code_search_limit_caps_results() {
    let m = LineMatcher::new("x", false);
    let mut s = CodeSearch::new(SearchMode::Compact, 1);
    s.add_file("a".to_string(), matching_lines("x\n", &m));
    s.add_file("b".to_string(), matching_lines("xx\nx\n", &m));
    assert_eq!(s.results.len(), 1);
    assert_eq!(s.total_grep_matches, 3);
}

#[test]
fn regex_matcher_and_options() {
    assert!(LineMatcher::new("fo+", true).matches("xfoo"));
    assert!(!LineMatcher::new("fo+", false).matches("xfoo"));
    assert!(LineMatcher::new("a.b", false).matches("xa.by"));
    assert!(!LineMatcher::new("a.b", false).matches("axb"));
    assert_eq!(search_mode(&Some("files".to_string())), SearchMode::Files);
    assert_eq!(search_mode(&Some("full".to_string())), SearchMode::Full);
    assert_eq!(search_mode(&Some("other".to_string())), SearchMode::Compact);
    assert_eq!(search_mode(&None), SearchMode::Compact);
    assert_eq!(result_limit(None), 10);
    assert_eq!(result_limit(Some(0)), 1);
    assert_eq!(result_limit(Some(25)), 25);
}

#[test]
fn file_filters_by_extension_and_path_regex() {
    assert!(file_passes("src/a.go", "*.go", &None));
    assert!(!file_passes("src/a.rs", "*.go", &None));
    assert!(file_passes("src/a.rs", "", &None));
    let f = CompiledRegex::new("^src/");
    assert!(file_passes("src/a.rs", "", &f));
    assert!(!file_passes("lib/a.rs", "", &f));
}
