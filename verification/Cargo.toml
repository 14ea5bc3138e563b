[package]
name = "memtui"
version = "0.1.0"
edition = "2021"
publish = false

[dependencies]
ratatui = "*"
crossterm = "*"
serde = { version = "1", features = ["derive"] }
toml = "*"
