[package]
name = "glancr"
version = "0.1.0"
edition = "2021"
publish = false

[dependencies]
grep = "*"
fuzzy-matcher = "*"
syntect = "*"
bat = { version = "*", default-features = false, features = ["regex-fancy"] }
anyhow = "*"
crossterm = "*"
ratatui = "*"
tui-input = "*"
ignore = "*"
dirs = "*"
serde = { version = "*", features = ["derive"] }
serde_yaml = "*"
