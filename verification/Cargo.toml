[package]
name = "sse_server"
version = "0.1.0"
edition = "2021"
publish = false

[dependencies]
bytes = "1"
futures = "0.3"
http = "1"
http-body = "1"
http-body-util = "0.1"
serde_json = "1"
sse-stream = "0.2"
thiserror = "2"
tokio = { version = "1", features = ["macros", "rt", "sync", "time"] }
tokio-stream = "0.1"
tokio-util = "0.7"
tower-service = "0.3"
tracing = "0.1"
uuid = { version = "1", features = ["v4"] }
