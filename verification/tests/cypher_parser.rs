use grafy::cypher::ast::{Direction, Query};
use grafy::cypher::error::{CypherError, UnsupportedError};
use grafy::cypher::scope::Unsupported;
use grafy::cypher::lexer::Token;
use grafy::cypher::parser::{parse, token_debug};

fn parse_ok(q: &str) -> Query {
    parse(q).unwrap_or_else(|e| panic!("parse failed for {q:?}: {}", e.message()))
}

fn parse_err(q: &str) -> CypherError {
    match parse(q) {
        Ok(_) => panic!("expected error for {q:?}"),
        Err(e) => e,
    }
}

#[test]
fn simple_match_return() {
    let q = parse_ok("MATCH (n:Function) RETURN n.fqn");
    assert_eq!(q.match_clauses.len(), 1);
    let head = &q.match_clauses[0].pattern.head;
    assert_eq!(head.label.as_deref(), Some("Function"));
    assert_eq!(head.var.as_deref(), Some("n"));
    assert_eq!(q.return_clause.items.len(), 1);
}

#[test]
fn where_and_order_limit() {
    let q = parse_ok(r#"MATCH (n:Function) WHERE n.fqn CONTAINS "main" RETURN n.fqn ORDER BY n.fqn LIMIT 10"#);
    assert!(q.where_clause.is_some());
    assert!(q.order_by.is_some());
    assert_eq!(q.limit, Some(10));
}

#[test]
fn relationship_pattern() {
    let q = parse_ok("MATCH (a:Function)-[:CALLS]->(b:Function) RETURN a.fqn, b.fqn");
    let segs = &q.match_clauses[0].pattern.segments;
    assert_eq!(segs.len(), 1);
    assert_eq!(segs[0].0.types, vec!["CALLS"]);
    assert_eq!(segs[0].0.direction, Direction::LeftToRight);
}

#[test]
fn three_hop_pattern() {
    let q = parse_ok("MATCH (a)-[r]->(b)-[r2]->(c) RETURN a, b, c");
    assert_eq!(q.match_clauses[0].pattern.segments.len(), 2);
}

#[test]
fn distinct_skip_limit() {
    let q = parse_ok(
        r#"MATCH (n:Module) WHERE n.file STARTS WITH "src/" AND NOT n.fqn = "" RETURN DISTINCT n.fqn SKIP 5 LIMIT 5"#,
    );
    assert!(q.distinct);
    assert_eq!(q.skip, Some(5));
    assert_eq!(q.limit, Some(5));
}

#[test]
fn with_is_unsupported() {
    let e = parse_err("MATCH (n) WITH n RETURN n");
    assert!(matches!(e, CypherError::Unsupported(_)));
    let msg = e.message();
    assert!(msg.starts_with("ERROR:"), "got: {msg}");
    assert!(msg.contains("docs/cypher-lite.md"), "got: {msg}");
}

#[test]
fn unwind_is_unsupported() {
    let e = parse_err("UNWIND [1,2,3] AS x RETURN x");
    assert!(matches!(e, CypherError::Unsupported(_)));
}

#[test]
fn merge_is_unsupported() {
    let e = parse_err("MERGE (n:Function {fqn: 'foo'})");
    assert!(matches!(e, CypherError::Unsupported(_)));
}

#[test]
fn create_is_unsupported() {
    let e = parse_err("CREATE (n:Function)");
    assert!(matches!(e, CypherError::Unsupported(_)));
}

#[test]
fn delete_is_unsupported() {
    let e = parse_err("MATCH (n) DELETE n");
    assert!(matches!(e, CypherError::Unsupported(_)));
}

#[test]
fn set_is_unsupported() {
    let e = parse_err("MATCH (n) SET n.x = 1");
    assert!(matches!(e, CypherError::Unsupported(_)));
}

#[test]
fn remove_is_unsupported() {
    let e = parse_err("MATCH (n) REMOVE n.x");
    assert!(matches!(e, CypherError::Unsupported(_)));
}

#[test]
fn optional_match_is_unsupported() {
    let e = parse_err("OPTIONAL MATCH (n) RETURN n");
    assert!(matches!(e, CypherError::Unsupported(_)));
}

#[test]
fn variable_length_path_is_unsupported() {
    let e = parse_err("MATCH (a)-[*]->(b) RETURN a");
    assert!(matches!(e, CypherError::Unsupported(_)));
    let msg = e.message();
    assert!(msg.contains("docs/cypher-lite.md"), "got: {msg}");
}

#[test]
fn path_variable_is_unsupported() {
    let e = parse_err("MATCH p = (a)-[r]->(b) RETURN p");
    assert!(matches!(e, CypherError::Unsupported(_)));
}

#[test]
fn function_call_in_return_is_unsupported() {
    let e = parse_err("MATCH (n) RETURN id(n)");
    assert!(matches!(e, CypherError::Unsupported(_)));
}

#[test]
fn syntax_error_reports_offset() {
    let e = parse_err("MATCH (n RETURN n");
    match &e {
        CypherError::Parse { span, .. } => assert_eq!(span.0, 9),
        other => panic!("expected a parse error, got {other:?}"),
    }
    assert!(e.message().contains("offset 9"));
}

#[test]
fn tokens_render_as_their_debug_form() {
    assert_eq!(token_debug(&Token::SetKeyword), "Set");
    assert_eq!(token_debug(&Token::RParen), "RParen");
    assert_eq!(token_debug(&Token::StringLit("a\"b".to_string())), "StringLit(\"a\\\"b\")");
    assert_eq!(token_debug(&Token::Ident("n".to_string())), "Ident(\"n\")");
    assert_eq!(token_debug(&Token::IntLit(-3)), "IntLit(-3)");
}

fn parse_msg(q: &str) -> String {
    match parse_err(q) {
        CypherError::Parse { msg, .. } => msg,
        other => panic!("expected a parse error, got {:?}", other),
    }
}

#[test]
fn syntax_errors_say_what_was_expected() {
    assert_eq!(parse_msg("MATCH (n RETURN n"), "expected RParen, got Return");
    assert_eq!(parse_msg("MATCH (n) RETURN"), "expected return expression, got end of query");
    assert_eq!(parse_msg("MATCH (n) RETURN n LIMIT x"), "expected integer literal, got Ident(\"x\")");
    assert_eq!(parse_msg("RETURN n"), "query must start with MATCH");
    assert_eq!(parse_msg("MATCH (n) WHERE n.a IS 3 RETURN n"), "expected NULL after IS [NOT]");
    assert_eq!(parse_msg("MATCH (n) RETURN n n"), "unexpected token after query end: Some(Ident(\"n\"))");
}

#[test]
fn the_first_out_of_scope_keyword_is_reported() {
    let e = parse_err("MATCH (n) DELETE n CREATE (m) WITH m RETURN m");
    assert!(matches!(e, CypherError::Unsupported(UnsupportedError(Unsupported::Delete))));
    let e = parse_err("RETURN n UNWIND x MERGE (m)");
    assert!(matches!(e, CypherError::Unsupported(UnsupportedError(Unsupported::Unwind))));
    let e = parse_err("MATCH (n) WHERE n.fqn STARTS WITH 'a' OPTIONAL MATCH (m) RETURN n");
    assert!(matches!(e, CypherError::Unsupported(UnsupportedError(Unsupported::OptionalMatch))));
}

#[test]
fn without_clause_keywords_only_in_clause_features_are_refused() {
    assert!(parse("MATCH (n) WHERE n.fqn STARTS WITH 'a' AND n.fqn ENDS WITH 'z' RETURN n").is_ok());
    let e = parse_err("MATCH (n)-[*]->(m) RETURN n");
    assert!(matches!(e, CypherError::Unsupported(UnsupportedError(Unsupported::VariableLengthPath))));
    let e = parse_err("MATCH (n) RETURN toLower(n.fqn)");
    assert!(matches!(e, CypherError::Unsupported(UnsupportedError(Unsupported::Function))));
    let e = parse_err("MATCH p = (a)-->(b) RETURN p");
    assert!(matches!(e, CypherError::Unsupported(UnsupportedError(Unsupported::PathVariable))));
    assert!(matches!(parse_err("MATCH (n RETURN n"), CypherError::Parse { .. }));
}
