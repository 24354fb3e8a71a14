[package]
name = "orion_agent_core"
version = "0.1.0"
edition = "2021"
publish = false

[dependencies]
regex = "=1.13.1"
serde = { version = "=1.0.229", features = ["derive"] }
serde_json = "=1.0.154"
chrono = "=0.4.45"
cron = "=0.17.0"
glob = "=0.3.4"
base64 = "=0.23.1"
uuid = { version = "=1.29.0", features = ["v4"] }
tokio = { version = "=1.54.1", features = ["rt-multi-thread", "macros", "fs", "process", "time", "sync", "io-util", "net"] }
futures = "=0.3.34"
reqwest = { version = "=0.12.28", default-features = false, features = ["json", "rustls-tls", "stream"] }
toml = "=0.8.23"
rusqlite = { version = "=0.32.1", features = ["bundled"] }
axum = { version = "=0.7.9", features = ["ws"] }
aws-sigv4 = "=1.6.4"
aws-credential-types = "=1.3.1"
gcp_auth = "=0.12.7"
async-trait = "=0.1.92"
async-stream = "=0.3.6"
tokio-stream = "=0.1.19"
tokio-util = "=0.7.20"
bytes = "=1.12.1"
sha2 = "=0.11.1"
hex = "=0.4.3"
tracing = "=0.1.44"
thiserror = "=2.0.21"
