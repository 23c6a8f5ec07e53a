[package]
name = "rustrace"
version = "0.1.0"
edition = "2021"
publish = false

[dependencies]
blake3 = "1"
crossterm = "*"
libc = "0.2"
ratatui = "*"
serde = { version = "1", features = ["derive"] }
serde_json = "1"
toml = "*"
tree-sitter = "*"
tree-sitter-rust = "*"
tree-sitter-toml-ng = "*"
unicode-segmentation = "1"
