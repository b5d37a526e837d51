[package]
name = "turm"
version = "0.1.0"
edition = "2021"
publish = false

[dependencies]
regex = "*"
tui-input = "*"
ratatui = "*"
crossterm = "*"
serde_json = "*"
crossbeam = "*"
clap = { version = "*", features = ["derive"] }
clap_complete = "*"
itertools = "*"
lazy_static = "*"
