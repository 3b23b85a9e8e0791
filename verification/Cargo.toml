[package]
name = "herdr_npm"
version = "0.2.0"
edition = "2021"
publish = false

[dependencies]
crossterm = "*"
globset = "*"
ratatui = "*"
serde = { version = "1", features = ["derive"] }
serde_json = { version = "1", features = ["preserve_order"] }
serde_yaml_ng = "*"
unicode-width = "*"
walkdir = "2"
