[package]
name = "layerhouse"
version = "0.1.0"
edition = "2021"
publish = false

[dependencies]
aioduct = { version = "=0.2.6", features = ["tokio"] }
async-trait = "=0.1.92"
axum = "=0.8.9"
base64 = "=0.22.1"
bytes = "=1.12.1"
chrono = { version = "=0.4.45", default-features = false, features = ["clock", "std"] }
futures = "=0.3.34"
hex = "=0.4.3"
http = "=1.5.0"
openraft = { version = "=0.9.25", features = ["serde", "storage-v2"] }
rand = "=0.10.3"
serde = { version = "=1.0.229", features = ["derive"] }
serde_json = "=1.0.154"
serde_urlencoded = "=0.7.1"
sha2 = "=0.10.9"
tokio = { version = "=1.54.1", features = ["sync", "rt", "macros", "time", "net"] }
tokio-util = { version = "=0.7.20", features = ["io"] }
tracing = "=0.1.44"
uuid = { version = "=1.29.0", features = ["v7", "v4"] }
