[package]
name = "lisa_rs"
version = "0.1.0"
edition = "2021"
publish = false

[dependencies]
axum = "0.8"
crossterm = "0.28"
memmap2 = "0.9"
ratatui = "0.29"
serde = { version = "1", features = ["derive"] }
serde_json = "1"
tokenizers = { version = "0.21", default-features = false, features = ["fancy-regex"] }
tokio = { version = "1", features = ["rt-multi-thread", "net", "time", "sync"] }
tokio-stream = "0.1"
