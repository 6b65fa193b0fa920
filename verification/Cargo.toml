[package]
name = "mcp_uhubctl"
version = "0.1.0"
edition = "2021"
publish = false

[dependencies]
serde_json = "=1.0.154"
serde = { version = "=1.0.229", features = ["derive"] }
anyhow = "=1.0.104"
rmcp = { version = "=3.8.0", features = ["server", "macros", "transport-io"] }
schemars = "=1.2.3"
tokio = { version = "=1.54.1", features = ["macros", "rt-multi-thread", "io-std"] }
tracing = "=0.1.44"
tracing-subscriber = { version = "=0.3.23", features = ["env-filter"] }
