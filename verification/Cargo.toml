[package]
name = "rujimi"
version = "1.0.2"
edition = "2021"
publish = false

[dependencies]
anyhow = "1"
axum = "*"
base64 = "*"
chrono = "*"
dashmap = "*"
futures-util = "*"
rand = "*"
regex = "1"
reqwest = { version = "*", default-features = false, features = ["json", "stream"] }
serde = { version = "1", features = ["derive"] }
serde_json = "1"
tokio = { version = "1", features = ["full"] }
tracing = "*"
tracing-subscriber = "*"
url = "*"
uuid = { version = "*", features = ["v4"] }
xxhash-rust = { version = "*", features = ["xxh3"] }
