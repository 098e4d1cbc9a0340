[package]
name = "c3_transpiler"
version = "0.1.0"
edition = "2021"
publish = false

[dependencies]
heck = "*"
tree-sitter = "*"
tree-sitter-c = "*"
