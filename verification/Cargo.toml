[package]
name = "hyde"
version = "0.1.0"
edition = "2021"
publish = false

[dependencies]
chrono = "*"
clap = { version = "*", features = ["derive"] }
npezza93-tree-sitter-haskell = "*"
pulldown-cmark = "0.9"
serde = { version = "*", features = ["derive"] }
serde_yaml = "*"
toml = "*"
tree-sitter = "*"
tree-sitter-c = "*"
tree-sitter-cpp = "*"
tree-sitter-highlight = "*"
tree-sitter-ocaml = "*"
tree-sitter-python = "*"
tree-sitter-rust = "*"
upon = "*"
