//! Cypher-Lite scope. Unsupported features return a structured error
//! pointing the user to the structured-tool replacement.

use vstd::prelude::*;

verus! {

/// A Cypher feature outside the Cypher-Lite v1.0 scope.
#[derive(Debug, Clone, Copy, PartialEq, Eq, Structural)]
pub enum Unsupported {
    With,
    Unwind,
    Merge,
    Create,
    Delete,
    SetClause,
    Remove,
    VariableLengthPath,
    OptionalMatch,
    Aggregation,
    Function,
    MultipleMatch,
    PathVariable,
    /// A pattern chaining more than three relationships.
    ChainTooLong,
}

/// What the message names as the unsupported feature.
pub open spec fn unsupported_clause(u: Unsupported) -> Seq<char> {
    match u {
        Unsupported::With => "`WITH` clauses"@,
        Unsupported::Unwind => "`UNWIND`"@,
        Unsupported::Merge => "`MERGE`"@,
        Unsupported::Create => "`CREATE`"@,
        Unsupported::Delete => "`DELETE`"@,
        Unsupported::SetClause => "`SET`"@,
        Unsupported::Remove => "`REMOVE`"@,
        Unsupported::VariableLengthPath => "variable-length paths (`*`, `*1..3`)"@,
        Unsupported::OptionalMatch => "`OPTIONAL MATCH`"@,
        Unsupported::Aggregation => "aggregations (`count`, `sum`, `collect`, …)"@,
        Unsupported::Function => "functions (`toLower`, `coalesce`, …)"@,
        Unsupported::MultipleMatch => "multiple `MATCH` clauses in one query"@,
        Unsupported::PathVariable => "path variables (`p = (a)-[*]->(b)`)"@,
        Unsupported::ChainTooLong => "more than 3 chained relationships in one pattern"@,
    }
}

/// What the message recommends instead.
pub open spec fn unsupported_replacement(u: Unsupported) -> Seq<char> {
    match u {
        Unsupported::With => "use the structured tool `search_graph`"@,
        Unsupported::Unwind => "iterate from the client side"@,
        Unsupported::Merge => "Cypher-Lite is read-only"@,
        Unsupported::Create => "Cypher-Lite is read-only"@,
        Unsupported::Delete => "Cypher-Lite is read-only"@,
        Unsupported::SetClause => "Cypher-Lite is read-only"@,
        Unsupported::Remove => "Cypher-Lite is read-only"@,
        Unsupported::VariableLengthPath => "use the structured tool `trace_call_path` with bounded hops"@,
        Unsupported::OptionalMatch => "use multiple `search_graph` calls"@,
        Unsupported::Aggregation => "aggregate on the client side"@,
        Unsupported::Function => "filter on raw properties"@,
        Unsupported::MultipleMatch => "issue separate queries"@,
        Unsupported::PathVariable => "use the structured tool `trace_call_path`"@,
        Unsupported::ChainTooLong => "use separate queries or the structured tool `trace_call_path`"@,
    }
}

/// The full user-facing message for `u`.
pub open spec fn unsupported_message(u: Unsupported) -> Seq<char> {
    "ERROR: Cypher-Lite does not support "@ + unsupported_clause(u) + " (v1.0).\n       For this query, "@
        + unsupported_replacement(u) + ". See docs/cypher-lite.md."@
}

impl Unsupported {
    /// Error message template.
    pub fn message(self) -> (m: String)
        ensures
            m@ == unsupported_message(self),
    {
        let (clause, replacement): (&str, &str) = match self {
            Unsupported::With => ("`WITH` clauses", "use the structured tool `search_graph`"),
            Unsupported::Unwind => ("`UNWIND`", "iterate from the client side"),
            Unsupported::Merge => ("`MERGE`", "Cypher-Lite is read-only"),
            Unsupported::Create => ("`CREATE`", "Cypher-Lite is read-only"),
            Unsupported::Delete => ("`DELETE`", "Cypher-Lite is read-only"),
            Unsupported::SetClause => ("`SET`", "Cypher-Lite is read-only"),
            Unsupported::Remove => ("`REMOVE`", "Cypher-Lite is read-only"),
            Unsupported::VariableLengthPath => (
                "variable-length paths (`*`, `*1..3`)",
                "use the structured tool `trace_call_path` with bounded hops",
            ),
            Unsupported::OptionalMatch => ("`OPTIONAL MATCH`", "use multiple `search_graph` calls"),
            Unsupported::Aggregation => (
                "aggregations (`count`, `sum`, `collect`, …)",
                "aggregate on the client side",
            ),
            Unsupported::Function => ("functions (`toLower`, `coalesce`, …)", "filter on raw properties"),
            Unsupported::MultipleMatch => ("multiple `MATCH` clauses in one query", "issue separate queries"),
            Unsupported::PathVariable => (
                "path variables (`p = (a)-[*]->(b)`)",
                "use the structured tool `trace_call_path`",
            ),
            Unsupported::ChainTooLong => (
                "more than 3 chained relationships in one pattern",
                "use separate queries or the structured tool `trace_call_path`",
            ),
        };
        let mut m = String::from_str("ERROR: Cypher-Lite does not support ");
        m.append(clause);
        m.append(" (v1.0).\n       For this query, ");
        m.append(replacement);
        m.append(". See docs/cypher-lite.md.");
        m
    }
}


/// The two characters that open the feature's name in its message.
spec fn message_key(u: Unsupported) -> (char, char) {
    match u {
        Unsupported::With => ('`', 'W'),
        Unsupported::Unwind => ('`', 'U'),
        Unsupported::Merge => ('`', 'M'),
        Unsupported::Create => ('`', 'C'),
        Unsupported::Delete => ('`', 'D'),
        Unsupported::SetClause => ('`', 'S'),
        Unsupported::Remove => ('`', 'R'),
        Unsupported::VariableLengthPath => ('v', 'a'),
        Unsupported::OptionalMatch => ('`', 'O'),
        Unsupported::Aggregation => ('a', 'g'),
        Unsupported::Function => ('f', 'u'),
        Unsupported::MultipleMatch => ('m', 'u'),
        Unsupported::PathVariable => ('p', 'a'),
        Unsupported::ChainTooLong => ('m', 'o'),
    }
}

proof fn message_key_at(u: Unsupported)
    ensures
        unsupported_message(u).len() > 37,
        unsupported_message(u)[36] == message_key(u).0,
        unsupported_message(u)[37] == message_key(u).1,
{
    reveal_strlit("ERROR: Cypher-Lite does not support ");
    match u {
        Unsupported::With => { reveal_strlit("`WITH` clauses"); },
        Unsupported::Unwind => { reveal_strlit("`UNWIND`"); },
        Unsupported::Merge => { reveal_strlit("`MERGE`"); },
        Unsupported::Create => { reveal_strlit("`CREATE`"); },
        Unsupported::Delete => { reveal_strlit("`DELETE`"); },
        Unsupported::SetClause => { reveal_strlit("`SET`"); },
        Unsupported::Remove => { reveal_strlit("`REMOVE`"); },
        Unsupported::VariableLengthPath => { reveal_strlit("variable-length paths (`*`, `*1..3`)"); },
        Unsupported::OptionalMatch => { reveal_strlit("`OPTIONAL MATCH`"); },
        Unsupported::Aggregation => { reveal_strlit("aggregations (`count`, `sum`, `collect`, …)"); },
        Unsupported::Function => { reveal_strlit("functions (`toLower`, `coalesce`, …)"); },
        Unsupported::MultipleMatch => { reveal_strlit("multiple `MATCH` clauses in one query"); },
        Unsupported::PathVariable => { reveal_strlit("path variables (`p = (a)-[*]->(b)`)"); },
        Unsupported::ChainTooLong => { reveal_strlit("more than 3 chained relationships in one pattern"); },
    }
}

/// Different unsupported features are reported with different messages.
pub proof fn unsupported_messages_differ(u1: Unsupported, u2: Unsupported)
    requires
        u1 != u2,
    ensures
        unsupported_message(u1) != unsupported_message(u2),
{
    message_key_at(u1);
    message_key_at(u2);
}

} // verus!
