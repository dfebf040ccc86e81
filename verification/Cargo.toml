[package]
name = "webol"
version = "1.0.0"
edition = "2021"
publish = false

[dependencies]
axum = { version = "0.7", features = ["ws"] }
color-eyre = "0.6"
config = "0.14"
dashmap = "6"
ipnetwork = "0.20"
mac_address = "1"
serde = { version = "1", features = ["derive"] }
serde_json = "1"
surge-ping = "0.8"
thiserror = "1"
time = "0.3"
tokio = { version = "1", features = ["rt-multi-thread", "macros", "net", "sync", "time"] }
tracing = "0.1"
tracing-appender = "0.2"
tracing-subscriber = { version = "0.3", features = ["env-filter", "chrono"] }
uuid = { version = "1", features = ["v4"] }
