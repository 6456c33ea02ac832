[package]
name = "semantic_memory_mcp"
version = "0.5.3"
edition = "2021"
publish = false

[dependencies]
anyhow = "=1.0.104"
axum = "=0.8.9"
blake3 = "=1.8.7"
boundary-compiler = "=0.1.1"
chrono = { version = "=0.4.45", features = ["serde"] }
claim-ledger = "=0.2.1"
clap = { version = "=4.6.7", features = ["derive"] }
http-body-util = "=0.1.5"
llm-output-parser = "=0.2.0"
reqwest = { version = "0.12", default-features = false, features = ["blocking", "json"] }
rmcp = { version = "1.8", features = ["server", "macros", "schemars", "transport-io", "transport-streamable-http-server"] }
schemars = "=1.2.3"
semantic-memory = { version = "=0.5.15", default-features = false, features = ["brute-force", "integration", "rl-routing", "admin-ops", "testing"] }
serde = { version = "1", features = ["derive"] }
serde_json = "=1.0.154"
stack-ids = "=0.1.3"
tokio = { version = "1", features = ["rt-multi-thread", "macros", "net", "time", "sync", "io-util"] }
tracing = "0.1"
tracing-subscriber = { version = "0.3", features = ["env-filter"] }
uuid = { version = "=1.29.0", features = ["v4"] }

[dev-dependencies]
tempfile = "3"
