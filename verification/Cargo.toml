[package]
name = "grafy"
version = "0.2.0"
edition = "2021"
publish = false

[dependencies]
blake3 = "1"
regex = "1"
anyhow = "1"
clap = { version = "4", features = ["derive"] }
crossbeam-channel = "0.5"
dashmap = "6"
ignore = "0.4"
postcard = { version = "1", features = ["alloc"] }
protobuf = "3"
rayon = "1"
redb = "2"
rmcp = "*"
scip = "*"
serde = { version = "1", features = ["derive"] }
serde_json = "1"
tokio = { version = "1", features = ["rt-multi-thread", "macros", "io-std"] }
tracing = "0.1"
tracing-subscriber = { version = "0.3", features = ["env-filter"] }
tree-sitter = "*"
tree-sitter-rust = "*"
tree-sitter-python = "*"
tree-sitter-javascript = "*"
tree-sitter-typescript = "*"
tree-sitter-go = "*"
tree-sitter-java = "*"
tree-sitter-cpp = "*"
tree-sitter-c-sharp = "*"
tree-sitter-php = "*"
tree-sitter-scala = "*"
tree-sitter-lua = "*"
