[package]
name = "emulaunch"
version = "0.1.0"
edition = "2021"
publish = false

[dependencies]
serde_json = "*"
serde = { version = "*", features = ["derive"] }
toml = "*"
dirs = "*"
clap = { version = "*", features = ["derive"] }
crossterm = "*"
ratatui = "*"
