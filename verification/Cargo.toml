[package]
name = "serena"
version = "0.1.0"
edition = "2021"
publish = false

[dependencies]
regex = "1"
ignore = "0.4"
walkdir = "2"
serde = { version = "1", features = ["derive"] }
serde_json = "1"
serde_yaml = "0.9"
chrono = "0.4"
lsp-types = "0.95"
lsp-server = "0.7"
crossbeam-channel = "0.5"
tokio = { version = "1", features = ["full"] }
futures = "0.3"
anyhow = "1"
rmcp = { version = "0.8", features = ["server", "transport-io"] }
clap = { version = "4", features = ["derive"] }
tracing = "0.1"
tracing-subscriber = "0.3"
