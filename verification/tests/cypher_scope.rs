use grafy::cypher::scope::Unsupported;

#[test]
fn message_shape() {
    let m = Unsupported::With.message();
    assert!(m.starts_with("ERROR: Cypher-Lite does not support"));
    assert!(m.contains("docs/cypher-lite.md"));
}

#[test]
fn variable_length_routes_to_trace_call_path() {
    assert!(Unsupported::VariableLengthPath.message().contains("trace_call_path"));
}

#[test]
fn every_unsupported_feature_has_its_own_message() {
    let all = [
        Unsupported::With,
        Unsupported::Unwind,
        Unsupported::Merge,
        Unsupported::Create,
        Unsupported::Delete,
        Unsupported::SetClause,
        Unsupported::Remove,
        Unsupported::VariableLengthPath,
        Unsupported::OptionalMatch,
        Unsupported::Aggregation,
        Unsupported::Function,
        Unsupported::MultipleMatch,
        Unsupported::PathVariable,
        Unsupported::ChainTooLong,
    ];
    for (i, a) in all.iter().enumerate() {
        for b in all.iter().skip(i + 1) {
            assert_ne!(a.message(), b.message());
        }
    }
    assert_eq!(
        Unsupported::Create.message(),
        "ERROR: Cypher-Lite does not support `CREATE` (v1.0).\n       For this query, Cypher-Lite is read-only. See docs/cypher-lite.md."
    );
}
