//! Cypher-Lite: a read-only Cypher subset over the code graph.

pub mod ast;
pub mod scope;
pub mod error;
pub mod lexer;
pub mod parser;
pub mod plan;
pub mod value;
pub mod executor;
pub mod laws;
pub mod parse_laws;

use vstd::prelude::*;
use crate::cypher::error::CypherError;
use crate::cypher::executor::{GraphSnapshot, run, run_plan, rows_view};
use crate::cypher::lexer::tokenize_defined;
use crate::cypher::parser::{ParseOutcome, parse, parse_error_matches, spec_parse};
use crate::cypher::plan::{Planner, reports, spec_build};
use crate::cypher::value::Row;

verus! {

/// Parses, plans and runs a query over a graph snapshot. Read-only.
pub fn execute(g: &GraphSnapshot, query: &str) -> (r: Result<Vec<Row>, CypherError>)
    requires
        tokenize_defined(query@),
    ensures
        match spec_parse(query@) {
            ParseOutcome::Parsed(qv) => match spec_build(qv) {
                Ok(p) => match run_plan(g@, p) {
                    Ok(rows) => r == Ok::<_, CypherError>(r->Ok_0) && rows_view(r->Ok_0@) == rows,
                    Err(m) => r matches Err(e) && (e matches CypherError::Execute { msg } && msg@ == m),
                },
                Err(f) => r matches Err(e) && reports(e, f),
            },
            _ => r matches Err(e) && parse_error_matches(e, spec_parse(query@)),
        },
{
    let ast = match parse(query) {
        Ok(q) => q,
        Err(e) => { return Err(e); },
    };
    let pipeline = match Planner::build(ast) {
        Ok(p) => p,
        Err(e) => { return Err(e); },
    };
    run(g, &pipeline)
}

} // verus!
