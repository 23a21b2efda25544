[package]
name = "streamer_tools"
version = "0.1.0"
edition = "2021"
publish = false

[dependencies]
uuid = { version = "=1.29.1", features = ["v4", "serde"] }
colored = "=2.2.0"
rand = "=0.8.8"
serde = { version = "=1.0.229", features = ["derive"] }
serde_json = "=1.0.154"
toml = "=0.8.23"
tokio = { version = "=1.54.1", features = ["full"] }
axum = { version = "=0.7.9", features = ["ws"] }
chrono = "=0.4.45"
chrono-tz = "=0.10.4"
notify = "=6.1.1"
parking_lot = "=0.12.5"
lazy_static = "=1.5.1"
anyhow = "=1.0.104"
futures-util = "=0.3.34"
tower-http = { version = "=0.5.2", features = ["cors", "fs", "trace"] }
tokio-tungstenite = "=0.21.0"
reqwest = { version = "=0.12.28", default-features = false, features = ["json"] }
sqlx = { version = "=0.8.6", default-features = false, features = ["sqlite", "runtime-tokio"] }
clap = { version = "4", features = ["derive"] }
tower = { version = "0.5", features = ["util"] }
tracing-subscriber = "0.3"
log = "0.4"
