[package]
name = "codex_rs"
version = "0.1.0"
edition = "2021"
publish = false

[dependencies]
anyhow = "=1.0.104"
hex = "=0.4.3"
html-escape = "=0.2.15"
rand = "=0.8.8"
reqwest = { version = "=0.12.28", default-features = false, features = ["blocking", "json"] }
schemars = "=0.8.22"
serde = { version = "=1.0.229", features = ["derive"] }
serde_json = { version = "=1.0.154", features = ["float_roundtrip"] }
tiny_http = "=0.12.0"
tokio = { version = "=1.54.1", features = ["io-util", "process", "rt", "sync"] }
tracing = "=0.1.44"
url = "=2.5.8"
webbrowser = "=1.2.6"
