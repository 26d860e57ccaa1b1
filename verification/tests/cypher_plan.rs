use grafy::cypher::ast::{MatchClause, NodePat, Pattern, Query, ReturnClause, ReturnExpr, ReturnItem};
use grafy::cypher::error::{CypherError, UnsupportedError};
use grafy::cypher::scope::Unsupported;
use grafy::cypher::parser::parse;
use grafy::cypher::plan::{kind_name, label_to_kind, PlanNode, Planner};
use grafy::store::NodeKind;

fn build(q: &str) -> Vec<PlanNode> {
    let ast = parse(q).unwrap_or_else(|e| panic!("parse: {}", e.message()));
    Planner::build(ast).unwrap_or_else(|e| panic!("plan: {}", e.message()))
}

#[test]
fn simple_scan_project() {
    let p = build("MATCH (n:Function) RETURN n.fqn");
    assert!(matches!(p[0], PlanNode::Scan { .. }));
    assert!(p.iter().any(|n| matches!(n, PlanNode::Project(_))));
}

#[test]
fn scan_expand_filter() {
    let p = build("MATCH (a:Function)-[:CALLS]->(b:Function) RETURN a.fqn, b.fqn");
    assert!(matches!(p[0], PlanNode::Scan { .. }));
    assert!(p.iter().any(|n| matches!(n, PlanNode::Expand { .. })));
}

#[test]
fn multiple_match_rejected() {
    let q = Query {
        match_clauses: vec![
            MatchClause {
                pattern: Pattern {
                    head: NodePat { var: Some("a".into()), label: None, properties: vec![] },
                    segments: vec![],
                },
            },
            MatchClause {
                pattern: Pattern {
                    head: NodePat { var: Some("b".into()), label: None, properties: vec![] },
                    segments: vec![],
                },
            },
        ],
        where_clause: None,
        return_clause: ReturnClause { items: vec![ReturnItem { expr: ReturnExpr::Var("a".into()), alias: None }] },
        order_by: None,
        skip: None,
        limit: None,
        distinct: false,
    };
    let err = match Planner::build(q) {
        Ok(_) => panic!("expected an error"),
        Err(e) => e,
    };
    assert!(matches!(err, CypherError::Unsupported(_)));
}

#[test]
fn unnamed_nodes_get_positional_names_and_label_filters() {
    let p = build("MATCH (:File)-[]->(:Function) RETURN _n0");
    match &p[0] {
        PlanNode::Scan { var, label, .. } => {
            assert_eq!(var, "_n0");
            assert_eq!(*label, Some(NodeKind::File));
        }
        other => panic!("{other:?}"),
    }
    match &p[1] {
        PlanNode::Expand { from, to, .. } => {
            assert_eq!(from, "_n0");
            assert_eq!(to, "_n1");
        }
        other => panic!("{other:?}"),
    }
    assert!(matches!(p[2], PlanNode::Filter(_)));
}

#[test]
fn unknown_label_is_an_execution_error() {
    let ast = parse("MATCH (n:Banana) RETURN n").unwrap();
    match Planner::build(ast) {
        Err(CypherError::Execute { msg }) => assert!(msg.contains("unknown node label `Banana`")),
        Err(e) => panic!("unexpected error {}", e.message()),
        Ok(_) => panic!("expected an error"),
    }
}

#[test]
fn four_hops_exceed_the_cap() {
    let ast = parse("MATCH (a)-[]->(b)-[]->(c)-[]->(d)-[]->(e) RETURN a").unwrap();
    match Planner::build(ast) {
        Err(CypherError::Unsupported(UnsupportedError(u))) => {
            assert_eq!(u, Unsupported::ChainTooLong);
            let m = CypherError::Unsupported(UnsupportedError(u)).message();
            assert!(m.starts_with("ERROR: Cypher-Lite does not support more than 3 chained relationships"), "got: {m}");
        },
        Err(e) => panic!("unexpected error {}", e.message()),
        Ok(_) => panic!("expected an error"),
    }
}

#[test]
fn tail_steps_follow_the_query_order() {
    let p = build("MATCH (n) WHERE n.fqn = 'x' RETURN DISTINCT n ORDER BY n.fqn SKIP 2 LIMIT 3");
    let n = p.len();
    assert!(matches!(p[n - 6], PlanNode::Filter(_)));
    assert!(matches!(p[n - 5], PlanNode::Project(_)));
    assert!(matches!(p[n - 4], PlanNode::Distinct));
    assert!(matches!(p[n - 3], PlanNode::Sort(_)));
    assert!(matches!(p[n - 2], PlanNode::Skip(2)));
    assert!(matches!(p[n - 1], PlanNode::Take(3)));
}

#[test]
fn labels_and_kind_names_round_trip() {
    for k in [
        NodeKind::File,
        NodeKind::Module,
        NodeKind::Function,
        NodeKind::Class,
        NodeKind::Struct,
        NodeKind::Enum,
        NodeKind::Trait,
        NodeKind::Method,
        NodeKind::Route,
    ] {
        assert_eq!(label_to_kind(kind_name(k)).unwrap(), k);
    }
}

#[test]
fn plan_is_scan_then_one_expand_per_hop_then_the_tail() {
    let p = build("MATCH (a:Function)-[:CALLS]->(b)-[:CALLS]->(c:Method) WHERE a.fqn = 'x' RETURN DISTINCT c.fqn ORDER BY c.fqn SKIP 1 LIMIT 2");
    assert!(matches!(&p[0], PlanNode::Scan { var, .. } if var == "a"));
    let hops: Vec<(&str, &str)> = p
        .iter()
        .filter_map(|n| match n {
            PlanNode::Expand { from, to, .. } => Some((from.as_str(), to.as_str())),
            _ => None,
        })
        .collect();
    assert_eq!(hops, vec![("a", "b"), ("b", "c")]);
    let n = p.len();
    assert!(matches!(p[n - 6], PlanNode::Filter(_)));
    assert!(matches!(p[n - 5], PlanNode::Project(_)));
    assert!(matches!(p[n - 4], PlanNode::Distinct));
    assert!(matches!(p[n - 3], PlanNode::Sort(_)));
    assert!(matches!(p[n - 2], PlanNode::Skip(1)));
    assert!(matches!(p[n - 1], PlanNode::Take(2)));
}
