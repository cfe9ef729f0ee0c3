[package]
name = "gitlogue"
version = "0.1.0"
edition = "2021"
publish = false

[dependencies]
anyhow = "1"
dirs = "*"
ratatui = "*"
serde = { version = "1", features = ["derive"] }
streaming-iterator = "*"
toml = "*"
toml_edit = "*"
tree-sitter = "*"
unicode-width = "*"

[dev-dependencies]
tree-sitter-rust = "*"
