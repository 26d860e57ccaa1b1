# grafy

A polyglot code-intelligence engine: it indexes a repository into a graph of
files, modules, functions, classes, routes and call edges, answers a
read-only Cypher subset over that graph, serves the graph to agents over MCP,
and merges binding-precise references from SCIP indexers.

The library under `src/` is verified with Verus: each public function states
in `requires`/`ensures` what it returns, over mathematical models (`Seq`,
`Map`, views of the data types), and the laws of the library stand as public
proof functions.

## Layout

- `src/text.rs`, `src/multimap.rs` — character and string helpers, a small
  string-keyed multimap.
- `src/language.rs`, `src/routes.rs`, `src/fqn/` — languages and extensions,
  web-framework detection, fully qualified names per language.
- `src/store.rs` — records, node kinds and ids, the writer's batching rule.
- `src/pipeline/` — the four indexing passes: tree-sitter parses and queries
  behind trusted wrappers (`grammars.rs`, `syntax.rs`), the verified passes
  from a file's bytes to its write events, incremental classification and
  the run plan.
- `src/cypher/` — lexer, parser, scope check, planner, executor and their
  laws (`cypher/laws.rs`).
- `src/mcp/` — what each MCP tool computes: tracing, search, snippets,
  schema, architecture, code search, error text.
- `src/scip/` — SCIP documents, indexer detection, command lines and the
  runner's decisions, and the matching of occurrences onto graph nodes.
- `src/install/` — prerequisite probing, install plans and the report.
- `src/bench/` — the F1 bench: symbol normalisation, reference and pair
  extraction, counts, the stack-graphs output parser and the synthetic index.
- `app/` — the `grafy` binary: file walking and reading, the redb store,
  threads and channels, subprocesses, the MCP stdio server and the command
  line.

The tree-sitter query sources (`<lang>/{definitions,calls,imports}.scm` and
`routes/{fastapi,gin,express}.scm`) are read at run time from
`GRAFY_QUERIES_DIR`, or from `queries/` beside the executable.
