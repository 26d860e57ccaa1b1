use grafy::cypher::lexer::{tokenize, Token};

fn toks(q: &str) -> Vec<Token> {
    tokenize(q).unwrap().into_iter().map(|s| s.token).collect()
}

#[test]
fn keywords_case_insensitive() {
    assert_eq!(toks("match"), vec![Token::Match]);
    assert_eq!(toks("MATCH"), vec![Token::Match]);
    assert_eq!(toks("Match"), vec![Token::Match]);
}

#[test]
fn symbols() {
    let t = toks("->  <-  --  <=  >=  !=  <>  =~");
    assert_eq!(
        t,
        vec![
            Token::Arrow,
            Token::LeftArrow,
            Token::DoubleDash,
            Token::Le,
            Token::Ge,
            Token::Neq,
            Token::Neq,
            Token::RegexEq,
        ]
    );
}

#[test]
fn string_escapes() {
    let t = toks(r#"'hello\nworld'"#);
    assert_eq!(t, vec![Token::StringLit("hello\nworld".into())]);
}

#[test]
fn integer_and_float() {
    let t = toks("42 3.14");
    assert_eq!(t.len(), 2);
    assert_eq!(t[0], Token::IntLit(42));
    match &t[1] {
        Token::FloatLit(text) => assert_eq!(text.parse::<f64>().unwrap(), 3.14_f64),
        other => panic!("expected a float literal, got {other:?}"),
    }
}

#[test]
fn backtick_ident() {
    let t = toks("`my weird ident`");
    assert_eq!(t, vec![Token::Ident("my weird ident".into())]);
}

#[test]
fn spans_are_accurate() {
    let tokens = tokenize("MATCH (n)").unwrap();
    assert_eq!(tokens[0].start, 0);
    assert_eq!(tokens[0].end, 5);
    assert_eq!(tokens[1].start, 6);
}

#[test]
fn forbidden_keywords_are_recognised() {
    assert_eq!(toks("UNWIND"), vec![Token::Unwind]);
    assert_eq!(toks("MERGE"), vec![Token::Merge]);
    assert_eq!(toks("CREATE"), vec![Token::Create]);
    assert_eq!(toks("DELETE"), vec![Token::Delete]);
    assert_eq!(toks("SET"), vec![Token::SetKeyword]);
    assert_eq!(toks("REMOVE"), vec![Token::Remove]);
    assert_eq!(toks("OPTIONAL"), vec![Token::Optional]);
}

#[test]
fn spans_count_bytes_not_characters() {
    let tokens = tokenize("'é' x").unwrap();
    assert_eq!(tokens[0].span(), (0, 4));
    assert_eq!(tokens[1].span(), (5, 6));
}

#[test]
fn unterminated_string_is_a_parse_error() {
    let e = tokenize("'abc").unwrap_err();
    assert!(e.message().starts_with("ERROR: query parse error"));
}

#[test]
fn slicing_escape_is_detected() {
    assert!(grafy::cypher::lexer::tokenize_is_defined("MATCH (n) WHERE n.fqn = 'a\\nb' RETURN n"));
    assert!(!grafy::cypher::lexer::tokenize_is_defined("RETURN 'x\\é'"));
    assert!(grafy::cypher::lexer::tokenize_is_defined("RETURN 'x' \\é"));
    assert!(grafy::cypher::lexer::tokenize_is_defined("RETURN 'unterminated"));
}

#[test]
fn spans_are_non_empty_in_order_and_within_the_query() {
    let q = "MATCH (n:Function {fqn: 'ü'}) // done\nRETURN n";
    let ts = tokenize(q).unwrap();
    for t in &ts {
        assert!(t.start < t.end && t.end <= q.len());
    }
    for w in ts.windows(2) {
        assert!(w[0].end <= w[1].start);
    }
    assert_eq!(ts[1].span(), (6, 7));
    assert_eq!(ts[2].span(), (7, 8));
    assert_eq!(ts[8].span(), (24, 28));
}
