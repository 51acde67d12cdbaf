[package]
name = "geekgram"
version = "0.1.0"
edition = "2021"
publish = false

[dependencies]
rusqlite = { version = "=0.40.2", features = ["bundled"] }
tokio = { version = "=1.53.2", features = ["rt", "macros", "sync", "time"] }
ratatui = "=0.30.2"
crossterm = { version = "=0.29.0", features = ["event-stream"] }
futures = "=0.3.34"
log = "*"
color-eyre = "*"
eyre = "*"
chrono = "*"
grammers-client = "=0.7.0"
grammers-tl-types = "=0.7.0"
