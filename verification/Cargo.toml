[package]
name = "pulse"
version = "0.1.0"
edition = "2021"
publish = false

[dependencies]
anyhow = "*"
glob = "*"
serde_json = "*"
tantivy = "*"
tokio = { version = "*", features = ["macros", "rt-multi-thread", "fs", "io-util"] }
tracing = "*"
tracing-subscriber = { version = "*", features = ["env-filter", "fmt"] }
