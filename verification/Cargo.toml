[package]
name = "nostr_dispatch"
version = "0.1.0"
edition = "2021"
publish = false

[dependencies]
nostr-sdk = "*"
ractor = "*"
tokio = { version = "*", features = ["full"] }
tokio-util = "*"
anyhow = "*"
tracing = "*"
tracing-subscriber = { version = "*", features = ["env-filter"] }
metrics = "*"
axum = "*"
