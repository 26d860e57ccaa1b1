use grafy::bench::scip_refs::{
    extract_refs, f1_counts, normalize_symbol, pair_counts, scip_edge_pairs, scip_symbol_tail, ScipDocument,
    ScipOccurrence,
};
use grafy::bench::scip_refs::{spans_fit_check, RefKey};
use grafy::bench::stack_graphs::{parse_batch_output, parse_header_pos, Resolved};
use grafy::bench::synthetic::{
    build_synthetic_index, pair_resolutions, query_position, reference_positions, rewrite_ground_truth_symbols,
    resolve_step, ResolveStep, RESOLVE_BATCH_SIZE,
};
use grafy::bench::store_pairs::{edge_pairs, fqn_tail, EdgeKindFilter};
use grafy::cypher::executor::GraphSnapshot;
use grafy::store::{NodeKind, NodeRecord};

#[test]
fn parse_filter_variants() {
    assert!(matches!(EdgeKindFilter::parse("calls").unwrap(), EdgeKindFilter::Calls));
    assert!(matches!(EdgeKindFilter::parse("scip").unwrap(), EdgeKindFilter::Scip));
    assert!(matches!(EdgeKindFilter::parse("calls,scip").unwrap(), EdgeKindFilter::Both));
    assert!(matches!(EdgeKindFilter::parse("scip,calls").unwrap(), EdgeKindFilter::Both));
    assert!(EdgeKindFilter::parse("routes").is_err());
    assert!(EdgeKindFilter::parse("").is_err());
}

#[test]
fn filter_items_are_trimmed_and_errors_quote_the_input() {
    assert!(matches!(EdgeKindFilter::parse(" calls , scip ").unwrap(), EdgeKindFilter::Both));
    let e = EdgeKindFilter::parse("routes").unwrap_err();
    assert_eq!(e, "--include-edges expected one of: calls, scip, calls,scip — got \"routes\"");
}

#[test]
fn filter_matches_correct_kinds() {
    assert!(EdgeKindFilter::Calls.matches(0));
    assert!(!EdgeKindFilter::Calls.matches(1));
    assert!(!EdgeKindFilter::Calls.matches(2));
    assert!(EdgeKindFilter::Scip.matches(2));
    assert!(!EdgeKindFilter::Scip.matches(0));
    assert!(EdgeKindFilter::Both.matches(0));
    assert!(EdgeKindFilter::Both.matches(2));
    assert!(!EdgeKindFilter::Both.matches(1));
}

#[test]
fn grafy_store_fqn_tail_strips_separators() {
    assert_eq!(fqn_tail("a.b.c"), "c");
    assert_eq!(fqn_tail("mod::Type"), "Type");
    assert_eq!(fqn_tail("flat"), "flat");
    assert_eq!(fqn_tail(""), "");
}

#[test]
fn fqn_tail_takes_the_last_separator_of_either_kind() {
    assert_eq!(fqn_tail("a::b.c"), "c");
    assert_eq!(fqn_tail("a.b::c"), "c");
    assert_eq!(fqn_tail("x."), "");
}

#[test]
fn store_edge_pairs_are_distinct_tails() {
    let rec = |fqn: &str| NodeRecord { fqn: fqn.into(), kind: NodeKind::Function, file: "a.py".into(), byte_start: 0, byte_end: 1 };
    let g = GraphSnapshot {
        nodes: vec![(1, rec("pkg.a")), (2, rec("pkg.b")), (3, rec("other.b"))],
        edges: vec![(1, 2, 0), (1, 3, 0), (2, 3, 2), (2, 9, 0), (1, 2, 1)],
    };
    let calls = edge_pairs(&g, EdgeKindFilter::Calls);
    assert_eq!(calls, vec![("a".to_string(), "b".to_string())]);
    let both = edge_pairs(&g, EdgeKindFilter::Both);
    assert_eq!(both, vec![("a".to_string(), "b".to_string()), ("b".to_string(), "b".to_string())]);
}

#[test]
fn normalize_strips_package_prefix() {
    let a = "scip-python pypi flask 1.0.0 `src/flask/app`/Flask#";
    let b = "grafy-stackgraphs pypi flask 0.1.0 `src/flask/app`/Flask#";
    assert_eq!(normalize_symbol(a), normalize_symbol(b));
}

#[test]
fn normalize_preserves_local() {
    let s = "local 0";
    assert_eq!(normalize_symbol(s), s);
}

#[test]
fn normalize_keeps_only_descriptors() {
    assert_eq!(normalize_symbol("a b c d e f"), ". . . . e f");
    assert_eq!(normalize_symbol("a b c"), ". . . . ");
}

#[test]
fn scip_symbol_tail_extracts_last_id() {
    let s = "scip-python pypi flask 1.0.0 `src/flask/app`/Flask#";
    assert_eq!(scip_symbol_tail(s), "Flask");
    let m = "scip-python pypi flask 1.0.0 `src/flask/app`/Flask#run().";
    assert_eq!(scip_symbol_tail(m), "run");
    let t = "scip-python pypi flask 1.0.0 `src/flask/app`/CONFIG.";
    assert_eq!(scip_symbol_tail(t), "CONFIG");
    assert_eq!(scip_symbol_tail("local 42"), "");
}

fn occ(symbol: &str, roles: i32, range: Vec<i32>, enclosing: Vec<i32>) -> ScipOccurrence {
    ScipOccurrence { symbol: symbol.into(), symbol_roles: roles, range, enclosing_range: enclosing }
}

#[test]
fn f1_perfect_match() {
    let docs = vec![ScipDocument {
        relative_path: "a.py".into(),
        occurrences: vec![occ("scip-python . . . `mod`/foo#", 0, vec![1, 2, 5], vec![])],
    }];
    let refs = extract_refs(&docs);
    let r = f1_counts(&refs, &refs);
    assert_eq!(r.true_pos, 1);
    assert_eq!(r.false_pos, 0);
    assert_eq!(r.false_neg, 0);
}

#[test]
fn f1_counts_mismatches_and_misses() {
    let gt = vec![ScipDocument {
        relative_path: "a.py".into(),
        occurrences: vec![
            occ("s . . . x#", 0, vec![1, 1, 2], vec![]),
            occ("s . . . y#", 0, vec![2, 1, 2], vec![]),
            occ("s . . . def#", 1, vec![3, 1, 2], vec![]),
        ],
    }];
    let tool = vec![ScipDocument {
        relative_path: "a.py".into(),
        occurrences: vec![occ("t . . . x#", 0, vec![1, 1, 2], vec![]), occ("t . . . z#", 0, vec![5, 1, 2], vec![])],
    }];
    let r = f1_counts(&extract_refs(&gt), &extract_refs(&tool));
    assert_eq!((r.ground_truth_refs, r.tool_refs), (2, 2));
    assert_eq!((r.true_pos, r.false_pos, r.false_neg), (1, 1, 1));
}

#[test]
fn edge_pair_self_loops_skipped() {
    let docs = vec![ScipDocument {
        relative_path: "a.py".into(),
        occurrences: vec![
            occ("scip-python pypi p 1 `m`/foo().", 1, vec![0, 4, 7], vec![0, 0, 5, 0]),
            occ("scip-python pypi p 1 `m`/foo().", 0, vec![2, 4, 7], vec![]),
        ],
    }];
    assert!(scip_edge_pairs(&docs).is_empty());
}

#[test]
fn edge_pair_basic() {
    let docs = vec![ScipDocument {
        relative_path: "a.py".into(),
        occurrences: vec![
            occ("scip-python pypi p 1 `m`/outer().", 1, vec![0, 4, 9], vec![0, 0, 10, 0]),
            occ("scip-python pypi p 1 `m`/inner().", 1, vec![2, 8, 13], vec![2, 4, 4, 0]),
            occ("scip-python pypi p 1 `m`/helper().", 0, vec![3, 8, 14], vec![]),
            occ("scip-python pypi p 1 `m`/other().", 0, vec![6, 4, 9], vec![]),
            occ("scip-python pypi p 1 `m`/late().", 0, vec![20, 0, 4], vec![]),
        ],
    }];
    let pairs = scip_edge_pairs(&docs);
    assert_eq!(
        pairs,
        vec![("inner".to_string(), "helper".to_string()), ("outer".to_string(), "other".to_string())]
    );
}

#[test]
fn compute_edge_pair_perfect() {
    let gt = vec![("a".to_string(), "b".to_string()), ("b".to_string(), "c".to_string())];
    let r = pair_counts(&gt, &gt);
    assert_eq!((r.true_pos, r.false_pos, r.false_neg), (2, 0, 0));
    assert!(r.missing_sample.is_empty() && r.extra_sample.is_empty());
    let tool = vec![("a".to_string(), "b".to_string()), ("x".to_string(), "y".to_string())];
    let r = pair_counts(&gt, &tool);
    assert_eq!((r.true_pos, r.false_pos, r.false_neg), (1, 1, 1));
    assert_eq!(r.extra_sample, vec![("x".to_string(), "y".to_string())]);
    assert_eq!(r.missing_sample, vec![("b".to_string(), "c".to_string())]);
}

#[test]
fn parse_batch_handles_empty() {
    let out = parse_batch_output("", "/tmp", "/tmp", &[]);
    assert!(out.is_empty());
}

#[test]
fn parse_batch_extracts_definitions() {
    let stdout = "\
/abs/src/a.py:10:5: found 1 definitions for 1 references
queried reference
/abs/src/a.py:10:5:
10 |     foo()
   |     ^^^
has definition
/abs/src/a.py:42:7:
42 | def Flask():
   |     ^^^^^
/abs/src/b.py:20:1: no references at location
/abs/src/c.py:5:3: found 1 definitions for 1 references
queried reference
/abs/src/c.py:5:3:
has definition
/abs/src/d.py:100:0:
100 | def helper():
";
    let out = parse_batch_output(stdout, "/abs", "/abs", &keys3());
    assert_eq!(out.len(), 3);
    let r0 = out[0].as_ref().unwrap();
    assert_eq!(r0.path, "src/a.py");
    assert_eq!(r0.line, 41);
    assert_eq!(r0.col, 6);
    assert!(out[1].is_none());
    let r2 = out[2].as_ref().unwrap();
    assert_eq!(r2.path, "src/d.py");
    assert_eq!(r2.line, 99);
}

#[test]
fn header_positions_parse() {
    assert_eq!(parse_header_pos("/abs/a.py:10:5: found"), Some(("/abs/a.py".to_string(), 10, 5)));
    assert_eq!(parse_header_pos("abs/a.py:10:5: found"), None);
    assert_eq!(parse_header_pos("/abs/a.py:x:5: found"), None);
    assert_eq!(parse_header_pos("/abs/a.py:10:5"), None);
}

#[test]
fn batch_output_pads_missing_blocks() {
    let out = parse_batch_output("/r/a.py:1:1: no references at location\n", "/r", "/r", &keys3());
    assert_eq!(out.len(), 3);
    assert!(out.iter().all(|o| o.is_none()));
}

fn key(path: &str, line: i32, col: i32) -> RefKey {
    RefKey { path: path.to_string(), line, col }
}

#[test]
fn ground_truth_references_name_their_definitions() {
    let gt = vec![
        ScipDocument {
            relative_path: "a.py".to_string(),
            occurrences: vec![
                occ("pkg f().", 1, vec![2, 4, 5], vec![]),
                occ("pkg f().", 0, vec![7, 8, 9], vec![]),
                occ("pkg ext().", 0, vec![8, 1, 3], vec![]),
            ],
        },
        ScipDocument {
            relative_path: "b.py".to_string(),
            occurrences: vec![occ("pkg f().", 0, vec![1, 2, 3], vec![]), occ("pkg f().", 1, vec![9, 9, 9], vec![])],
        },
    ];
    let r = rewrite_ground_truth_symbols(&gt);
    assert_eq!(r.len(), 2);
    assert_eq!(r[0].relative_path, "a.py");
    assert_eq!(r[0].occurrences.len(), 1);
    assert_eq!(r[0].occurrences[0].symbol, "sg-resolved . . . `a.py`:2:4");
    assert_eq!(r[0].occurrences[0].range, vec![7, 8, 9]);
    assert_eq!(r[0].occurrences[0].symbol_roles, 0);
    assert_eq!(r[1].occurrences.len(), 1);
    assert_eq!(r[1].occurrences[0].symbol, "sg-resolved . . . `a.py`:2:4");
}

#[test]
fn reference_positions_are_first_seen_and_distinct() {
    let docs = vec![
        ScipDocument {
            relative_path: "a.py".to_string(),
            occurrences: vec![occ("x", 0, vec![1, 2, 3], vec![]), occ("y", 0, vec![1, 2, 4], vec![]), occ("z", 0, vec![], vec![])],
        },
        ScipDocument { relative_path: "b.py".to_string(), occurrences: vec![occ("x", 0, vec![1, 2, 3], vec![])] },
    ];
    let p = reference_positions(&docs);
    assert_eq!(p, vec![key("a.py", 1, 2), key("a.py", 0, 0), key("b.py", 1, 2)]);
}

#[test]
fn resolutions_pad_unanswered_positions() {
    let positions = vec![key("a.py", 1, 2), key("b.py", 3, 4), key("c.py", 5, 6)];
    let found = vec![Some(Resolved { path: "d.py".to_string(), line: 7, col: 8 }), None];
    let r = pair_resolutions(&positions, found);
    assert_eq!(r.len(), 3);
    assert_eq!(r[0].0, key("a.py", 1, 2));
    assert_eq!(r[0].1.as_ref().unwrap().path, "d.py");
    assert!(r[1].1.is_none());
    assert_eq!(r[2].0, key("c.py", 5, 6));
    assert!(r[2].1.is_none());
}

#[test]
fn synthetic_index_groups_by_path() {
    let res = |p: &str, l: i32, c: i32| Some(Resolved { path: p.to_string(), line: l, col: c });
    let entries = vec![
        (key("a.py", 1, 2), res("d.py", 7, 8)),
        (key("b.py", 3, 4), None),
        (key("c.py", 5, 6), res("d.py", 0, 1)),
        (key("a.py", 9, 10), res("e.py", 2, 3)),
    ];
    let docs = build_synthetic_index(&entries);
    assert_eq!(docs.len(), 2);
    assert_eq!(docs[0].relative_path, "a.py");
    assert_eq!(docs[0].occurrences.len(), 2);
    assert_eq!(docs[0].occurrences[0].symbol, "sg-resolved . . . `d.py`:7:8");
    assert_eq!(docs[0].occurrences[0].range, vec![1, 2, 3]);
    assert_eq!(docs[0].occurrences[1].symbol, "sg-resolved . . . `e.py`:2:3");
    assert_eq!(docs[0].occurrences[1].range, vec![9, 10, 11]);
    assert_eq!(docs[1].relative_path, "c.py");
    assert_eq!(docs[1].occurrences[0].range, vec![5, 6, 7]);
}

#[test]
fn query_positions_are_one_based() {
    assert_eq!(query_position("/abs/src/a.py", &key("src/a.py", 9, 4)), "/abs/src/a.py:10:5");
    assert_eq!(RESOLVE_BATCH_SIZE, 200);
}

#[test]
fn definition_spans_must_fit_in_i32() {
    let ok = vec![ScipDocument {
        relative_path: "a.py".into(),
        occurrences: vec![occ("pkg f().", 1, vec![1, 0, 3], vec![1, 0, 9, 0]), occ("pkg g().", 0, vec![i32::MIN, 0, 1], vec![])],
    }];
    assert!(spans_fit_check(&ok));
    let bad = vec![ScipDocument {
        relative_path: "a.py".into(),
        occurrences: vec![occ("pkg f().", 1, vec![0, 0, 1], vec![i32::MIN, 0, i32::MAX, 0])],
    }];
    assert!(!spans_fit_check(&bad));
}

#[test]
fn pair_samples_hold_at_most_ten_absent_pairs() {
    let gt: Vec<(String, String)> = vec![("a".to_string(), "b".to_string())];
    let tool: Vec<(String, String)> = (0..15).map(|i| (format!("x{i}"), "y".to_string())).collect();
    let r = pair_counts(&gt, &tool);
    assert_eq!((r.true_pos, r.false_pos, r.false_neg), (0, 15, 1));
    assert_eq!(r.true_pos + r.false_pos, r.tool_pairs);
    assert_eq!(r.extra_sample.len(), 10);
    assert_eq!(r.extra_sample[9], ("x9".to_string(), "y".to_string()));
    let r = pair_counts(&tool, &tool);
    assert_eq!((r.true_pos, r.false_pos, r.false_neg), (15, 0, 0));
}

#[test]
fn normalizing_twice_changes_nothing_more() {
    for s in ["scip-python pypi flask 2.0 `flask.app`/Flask#run().", "local 7", "a b c", "", "a b c d"] {
        let once = normalize_symbol(s);
        assert_eq!(normalize_symbol(&once), once);
    }
}

#[test]
fn resolving_runs_in_batches_until_done_or_out_of_time() {
    assert_eq!(resolve_step(0, 450, 0, 10), ResolveStep::Query { start: 0, end: 200 });
    assert_eq!(resolve_step(400, 450, 5_000_000_000, 10), ResolveStep::Query { start: 400, end: 450 });
    assert_eq!(resolve_step(450, 450, 99_000_000_000, 10), ResolveStep::Done { budget_hit: false });
    assert_eq!(resolve_step(200, 450, 10_000_000_001, 10), ResolveStep::Done { budget_hit: true });
    assert_eq!(resolve_step(200, 450, 10_000_000_000, 10), ResolveStep::Query { start: 200, end: 400 });
    assert_eq!(resolve_step(0, 0, 1, 0), ResolveStep::Done { budget_hit: false });
    assert_eq!(resolve_step(0, 3, 1, 0), ResolveStep::Done { budget_hit: true });
}

fn keys3() -> Vec<RefKey> {
    vec![key("a.py", 9, 4), key("b.py", 19, 0), key("c.py", 4, 2)]
}
