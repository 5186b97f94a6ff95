[package]
name = "pie"
version = "0.1.0"
edition = "2021"
publish = false

[dependencies]
tree-sitter = "=0.20.10"
miette = "=7.6.0"
thiserror = "=2.0.21"
rustyline = "=14.0.0"
rustyline-derive = "=0.12.0"
xdg = "=2.5.2"
