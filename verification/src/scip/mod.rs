//! SCIP ingest: the SCIP index model, matching of reference occurrences to
//! graph nodes (caller by enclosing byte range, callee by symbol name), the
//! table of known indexers, and the command line each indexer runs with.
//!
//! SCIP edges are additive: they augment the heuristic call edges, and a
//! language without an installed indexer simply gets none.

pub mod index;
pub mod ingest;
pub mod detect;
pub mod runner;
