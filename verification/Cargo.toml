[package]
name = "mcp_pty_server"
version = "0.1.0"
edition = "2021"
publish = false

[dependencies]
anyhow = "1"
portable-pty = "0.8"
regex = "1"
rmcp = { version = "0.16", features = ["server", "macros", "transport-io"] }
schemars = "1"
serde = { version = "1", features = ["derive"] }
serde_json = "1"
thiserror = "1"
tokio = { version = "1", features = ["full"] }
tracing = "0.1"
tracing-subscriber = { version = "0.3", features = ["env-filter"] }
vt100 = "0.17"
