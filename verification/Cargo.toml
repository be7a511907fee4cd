[package]
name = "auto_claude"
version = "0.1.0"
edition = "2021"
publish = false

[dependencies]
anyhow = "1"
base64 = "0.22"
dotenvy = "0.15"
regex = "1"
serde = { version = "1", features = ["derive"] }
serde_json = "1"
serde_yaml = "0.9"
sha1 = "0.10"
thiserror = "2"
tokio = { version = "1", features = ["fs", "rt", "macros", "process", "time", "sync"] }
