//! Grafy: code-intelligence engine core — Cypher-Lite query engine, graph
//! record model, language tables, FQN rules, graph traversal and
//! symbol-matching logic.

pub mod text;
pub mod multimap;
pub mod language;
pub mod routes;
pub mod fqn;
pub mod store;
pub mod pattern;
pub mod cypher;
pub mod mcp;
pub mod bench;
pub mod scip;
pub mod pipeline;
pub mod install;
pub mod stackgraphs;
