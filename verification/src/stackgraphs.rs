//! Name resolution through stack graphs: not provided; the heuristic
//! resolver and SCIP ingest are used instead.

use vstd::prelude::*;

verus! {

/// Why stack-graph resolution failed.
#[derive(Debug, Clone, Copy, PartialEq, Eq, Structural)]
pub enum ResolveError {
    NotYetImplemented,
}

impl ResolveError {
    /// The message shown for this error.
    pub fn message(&self) -> (m: &'static str)
        ensures
            m@ == "stack-graphs resolver not yet implemented (M2). Use the M1 heuristic resolver for now."@,
    {
        "stack-graphs resolver not yet implemented (M2). Use the M1 heuristic resolver for now."
    }
}

/// Stack-graph resolution: always refused.
pub fn resolve() -> (r: Result<(), ResolveError>)
    ensures
        r == Err::<(), ResolveError>(ResolveError::NotYetImplemented),
{
    Err(ResolveError::NotYetImplemented)
}

} // verus!
