[package]
name = "selfsonic"
version = "0.1.0"
edition = "2021"
publish = false

[dependencies]
percent-encoding = "2"
rand = "0.9"
anyhow = "1"
crossterm = "*"
dirs = "*"
futures = "0.3"
libc = "0.2"
mpris-server = "*"
ratatui = "*"
rodio = "*"
rusqlite = { version = "*", features = ["bundled"] }
serde = { version = "1", features = ["derive"] }
serde_json = "1"
tempfile = "3"
terminal-colorsaurus = "*"
terminal-trx = "*"
thiserror = "*"
toml = "*"
tracing = "0.1"
tracing-appender = "0.2"
tracing-subscriber = { version = "0.3", features = ["env-filter"] }
ureq = "3"
