//! Benchmark support: edge-pair projection of a Grafy store, SCIP symbol
//! normalisation, and parsing of stack-graphs resolver output.

pub mod store_pairs;
pub mod scip_refs;
pub mod stack_graphs;
pub mod synthetic;
