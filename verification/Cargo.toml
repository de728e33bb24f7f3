[package]
name = "sqlshield"
version = "0.1.0"
edition = "2021"
publish = false

[dependencies]
sqlparser = "*"
tree-sitter = "*"
tree-sitter-python = "*"
tree-sitter-rust = "*"
tree-sitter-javascript = "*"
walkdir = "*"
clap = { version = "*", features = ["derive"] }
colored = "*"
