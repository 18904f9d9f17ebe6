[package]
name = "whisper-server-http"
version = "0.1.0"
edition = "2021"
publish = false

[dependencies]
axum = { version = "0.8", features = ["multipart"] }
hound = "3.5"
nojson = "0.3"
ort = { version = "=2.0.0-rc.11", default-features = false, features = ["std", "load-dynamic"] }
tokio = { version = "1", features = ["full"] }
tower-http = { version = "0.6", features = ["cors"] }
tracing = "0.1"
tracing-subscriber = { version = "0.3", features = ["env-filter"] }
whisper-rs = "0.15"
