[package]
name = "mercutio"
version = "0.5.1"
edition = "2021"
publish = false

[dependencies]
rust-mcp-schema = { version = "=2.0.0", default-features = false, features = ["2025_11_25", "schema_utils"] }
serde = { version = "=1.0.229", features = ["derive"] }
serde_json = "=1.0.154"
schemars = "=0.8.22"
clap = { version = "=4.6.7", features = ["string"] }
rand = "=0.9.5"
thiserror = "=2.0.21"
tracing = "=0.1.44"
jiff = "=0.2.39"
chrono = "=0.4.45"
tokio = { version = "=1.54.1", features = ["io-util", "io-std", "sync", "rt", "macros"] }
axum = "=0.8.9"
