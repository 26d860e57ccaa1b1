use grafy::cypher::ast::Lit;
use grafy::cypher::error::CypherError;
use grafy::cypher::execute;
use grafy::cypher::executor::GraphSnapshot;
use grafy::cypher::value::{lit_to_value, Row, Value};
use grafy::store::{NodeKind, NodeRecord};

fn node(fqn: &str, kind: NodeKind, file: &str, start: u32) -> NodeRecord {
    NodeRecord { fqn: fqn.into(), kind, file: file.into(), byte_start: start, byte_end: start + 10 }
}

fn graph() -> GraphSnapshot {
    GraphSnapshot {
        nodes: vec![
            (1, node("app::main", NodeKind::Function, "src/main.rs", 0)),
            (2, node("app::helper", NodeKind::Function, "src/lib.rs", 20)),
            (3, node("app::util", NodeKind::Function, "src/lib.rs", 40)),
            (4, node("app", NodeKind::Module, "src/lib.rs", 0)),
        ],
        edges: vec![(1, 2, 0), (1, 3, 0), (2, 3, 0), (4, 1, 1)],
    }
}

fn col<'a>(r: &'a Row, name: &str) -> &'a Value {
    &r.cols.iter().find(|(k, _)| k == name).unwrap_or_else(|| panic!("no column {name}")).1
}

fn run(q: &str) -> Vec<Row> {
    execute(&graph(), q).unwrap_or_else(|e| panic!("{}", e.message()))
}

#[test]
fn lit_to_value_roundtrip() {
    assert_eq!(lit_to_value(&Lit::Int(42)), Value::Int(42));
    assert_eq!(lit_to_value(&Lit::Str("hi".into())), Value::Str("hi".into()));
    assert_eq!(lit_to_value(&Lit::Bool(true)), Value::Bool(true));
    assert!(matches!(lit_to_value(&Lit::Null), Value::Null));
}

#[test]
fn scan_with_label_returns_every_function_in_id_order() {
    let rows = run("MATCH (n:Function) RETURN n.fqn");
    let names: Vec<&Value> = rows.iter().map(|r| col(r, "n.fqn")).collect();
    assert_eq!(
        names,
        vec![&Value::Str("app::main".into()), &Value::Str("app::helper".into()), &Value::Str("app::util".into())]
    );
}

#[test]
fn expand_follows_call_edges() {
    let rows = run("MATCH (a:Function {fqn: 'app::main'})-[:CALLS]->(b) RETURN b.fqn");
    let names: Vec<&Value> = rows.iter().map(|r| col(r, "b.fqn")).collect();
    assert_eq!(names, vec![&Value::Str("app::helper".into()), &Value::Str("app::util".into())]);
}

#[test]
fn expand_against_the_arrow_finds_callers() {
    let rows = run("MATCH (a {fqn: 'app::util'})<-[:calls]-(b) RETURN b.fqn");
    let names: Vec<&Value> = rows.iter().map(|r| col(r, "b.fqn")).collect();
    assert_eq!(names, vec![&Value::Str("app::main".into()), &Value::Str("app::helper".into())]);
}

#[test]
fn edge_variables_carry_kind_names() {
    let rows = run("MATCH (m:Module)-[r]->(f) RETURN r.kind, f.fqn");
    assert_eq!(rows.len(), 1);
    assert_eq!(col(&rows[0], "r.kind"), &Value::Str("ROUTES".into()));
}

#[test]
fn where_order_skip_limit() {
    let rows = run("MATCH (n:Function) WHERE n.file STARTS WITH 'src/lib' RETURN n.fqn ORDER BY n.fqn DESC SKIP 0 LIMIT 1");
    assert_eq!(rows.len(), 1);
    assert_eq!(col(&rows[0], "n.fqn"), &Value::Str("app::util".into()));
}

#[test]
fn distinct_removes_repeated_rows() {
    let rows = run("MATCH (n:Function) RETURN DISTINCT n.file");
    assert_eq!(rows.len(), 2);
    let rows = run("MATCH (n:Function) RETURN n.file");
    assert_eq!(rows.len(), 3);
}

#[test]
fn projection_uses_aliases() {
    let rows = run("MATCH (n:Module) RETURN n.fqn AS name, n.byte_start");
    assert_eq!(rows.len(), 1);
    assert_eq!(col(&rows[0], "name"), &Value::Str("app".into()));
    assert_eq!(col(&rows[0], "n.byte_start"), &Value::Int(0));
}

#[test]
fn unknown_properties_are_null_and_filter_nothing_in() {
    let rows = run("MATCH (n) WHERE n.colour IS NULL RETURN n.fqn");
    assert_eq!(rows.len(), 4);
    let rows = run("MATCH (n) WHERE n.colour = 'red' RETURN n.fqn");
    assert_eq!(rows.len(), 0);
}

#[test]
fn regex_comparison_never_holds() {
    let rows = run("MATCH (n) WHERE n.fqn =~ '.*' RETURN n.fqn");
    assert_eq!(rows.len(), 0);
}

#[test]
fn parse_errors_pass_through_execute() {
    let g = graph();
    match execute(&g, "MATCH (n RETURN n") {
        Err(CypherError::Parse { .. }) => {}
        Err(e) => panic!("unexpected {}", e.message()),
        Ok(_) => panic!("expected an error"),
    }
}

#[test]
fn scan_without_label_returns_every_node() {
    let mut nodes = Vec::new();
    for i in 0..400u64 {
        nodes.push((i, node(&format!("f{i}"), NodeKind::Function, "a.rs", i as u32)));
    }
    let g = GraphSnapshot { nodes, edges: vec![] };
    match execute(&g, "MATCH (a) RETURN a") {
        Ok(rows) => assert_eq!(rows.len(), 400),
        Err(e) => panic!("{}", e.message()),
    }
}
