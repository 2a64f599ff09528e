[package]
name = "kimmy_api"
version = "0.1.0"
edition = "2021"
publish = false

[dependencies]
axum = { version = "=0.8.9", features = ["ws"] }
base64 = "=0.22.1"
bson = "=2.15.0"
futures = "0.3"
hmac = "=0.12.1"
http-body = "1"
http-body-util = "0.1"
opentelemetry-semantic-conventions = { version = "=0.33.1", features = ["semconv_experimental"] }
parking_lot = "0.12"
reqwest = { version = "=0.12.28", default-features = false }
serde = { version = "1", features = ["derive"] }
serde_json = { version = "=1.0.154", features = ["preserve_order"] }
sha2 = "=0.10.9"
tokio = { version = "1", features = ["rt", "macros", "sync", "time"] }
tracing = "=0.1.44"
