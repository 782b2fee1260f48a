[package]
name = "stylesense"
version = "0.1.0"
edition = "2021"
publish = false

[dependencies]
tree-sitter = "*"
tree-sitter-c = "*"
tree-sitter-cpp = "*"
tokio = { version = "*", features = ["full"] }
tower-lsp = "*"
