[package]
name = "ttlog_view"
version = "0.1.0"
edition = "2021"
publish = false

[dependencies]
chrono = "0.4"
lz4 = "1"
serde = { version = "1", features = ["derive"] }
serde_json = "1"
serde_cbor = "0.11"
smallvec = { version = "1", features = ["serde"] }
ratatui = "0.29"
crossterm = "0.28"
tokio = { version = "1", features = ["rt-multi-thread", "sync", "macros", "time"] }
color-eyre = "0.6"
