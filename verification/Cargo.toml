[package]
name = "synapse"
version = "0.1.0"
edition = "2021"
publish = false

[dependencies]
axum = "*"
tokio = { version = "1", features = ["rt-multi-thread", "macros", "sync", "net", "time"] }
serde = { version = "1", features = ["derive"] }
serde_json = "1"
toml = "*"
anyhow = "1"
thiserror = "*"
genai = "*"
reqwest = { version = "*", features = ["json"] }
google-cloud-auth = "*"
metrics = "*"
metrics-exporter-prometheus = { version = "*", default-features = false, features = ["http-listener"] }
tracing = "0.1"
tracing-subscriber = { version = "0.3", features = ["env-filter"] }
chrono = "0.4"
uuid = { version = "1", features = ["v4"] }
futures = "0.3"
parking_lot = "0.12"
async-trait = "0.1"
tap = "1"
rustls = "*"
