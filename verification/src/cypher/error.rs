//! Cypher-Lite error type. Every variant carries a one-line next-step phrase.

use vstd::prelude::*;
use crate::cypher::scope::{Unsupported, unsupported_message};
use crate::text::{spec_decimal, push_decimal};

verus! {

/// Newtype around an out-of-scope feature, as carried by `CypherError`.
#[derive(Debug, Clone, Copy, PartialEq, Eq, Structural)]
pub struct UnsupportedError(pub Unsupported);

/// Errors of the Cypher-Lite engine.
#[derive(Debug)]
pub enum CypherError {
    /// Syntax error produced by the lexer or parser. `span` is
    /// `(byte_start, byte_end)` within the original query string.
    Parse { msg: String, span: (usize, usize), span_start: usize },
    /// The query uses a feature outside the Cypher-Lite v1.0 scope.
    Unsupported(UnsupportedError),
    /// Runtime execution error (e.g. row-cap exceeded).
    Execute { msg: String },
    /// Storage layer error, carried as its rendered text.
    Storage(String),
}

/// The user-facing rendering of an error.
pub open spec fn cypher_error_message(e: CypherError) -> Seq<char> {
    match e {
        CypherError::Parse { msg, span, span_start } => "ERROR: query parse error — "@ + msg@
            + " (check syntax at offset "@ + spec_decimal(span_start as nat) + "). See docs/cypher-lite.md."@,
        CypherError::Unsupported(u) => unsupported_message(u.0),
        CypherError::Execute { msg } => "ERROR: query execution failed — "@ + msg@
            + ". See docs/cypher-lite.md."@,
        CypherError::Storage(m) => "ERROR: storage error — "@ + m@
            + ". Rebuild the store with `grafy index`. See docs/cypher-lite.md."@,
    }
}

impl CypherError {
    /// Convenience constructor for parse errors.
    pub fn parse(msg: String, span: (usize, usize)) -> (e: CypherError)
        ensures
            e matches CypherError::Parse { msg: m, span: s, span_start } && m@ == msg@ && s == span
                && span_start == span.0,
    {
        let span_start = span.0;
        CypherError::Parse { msg, span, span_start }
    }

    /// An error for an out-of-scope feature.
    pub fn unsupported(u: Unsupported) -> (e: CypherError)
        ensures
            e == CypherError::Unsupported(UnsupportedError(u)),
    {
        CypherError::Unsupported(UnsupportedError(u))
    }

    /// The user-facing rendering of this error.
    pub fn message(&self) -> (m: String)
        ensures
            m@ == cypher_error_message(*self),
    {
        match self {
            CypherError::Parse { msg, span: _, span_start } => {
                let mut m = String::from_str("ERROR: query parse error — ");
                m.append(msg.as_str());
                m.append(" (check syntax at offset ");
                push_decimal(&mut m, *span_start as u64);
                m.append("). See docs/cypher-lite.md.");
                m
            },
            CypherError::Unsupported(u) => u.0.message(),
            CypherError::Execute { msg } => {
                let mut m = String::from_str("ERROR: query execution failed — ");
                m.append(msg.as_str());
                m.append(". See docs/cypher-lite.md.");
                m
            },
            CypherError::Storage(s) => {
                let mut m = String::from_str("ERROR: storage error — ");
                m.append(s.as_str());
                m.append(". Rebuild the store with `grafy index`. See docs/cypher-lite.md.");
                m
            },
        }
    }
}

} // verus!
