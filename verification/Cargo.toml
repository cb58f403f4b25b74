[package]
name = "clewdr_web"
version = "0.1.0"
edition = "2021"
publish = false

[dependencies]
async-stream = "0.3"
axum = "0.8"
bytes = "1"
eventsource-stream = "0.2"
futures = "0.3"
http = "1"
serde = { version = "1", features = ["derive"] }
serde_json = "1"
snafu = "0.8"
tokio = { version = "1", features = ["rt", "sync", "time", "macros"] }
tracing = "0.1"
url = "2"
uuid = { version = "1", features = ["v4"] }
wreq = { version = "=6.0.0-rc.20", features = ["json", "stream"] }
