[package]
name = "stackure"
version = "1.0.0"
edition = "2021"
publish = false

[dependencies]
serde = { version = "1", features = ["derive"] }
serde_json = "1"
http = "1"
http-body = "1"
http-body-util = "0.1"
bytes = "1"
tower = { version = "0.5", features = ["util"] }
axum = "0.8"
hyper-util = { version = "0.1", features = ["client-legacy", "http1", "tokio"] }
hyper-rustls = { version = "0.27", default-features = false, features = ["ring", "native-tokio", "http1", "tls12"] }
tokio = { version = "1", features = ["time", "rt", "rt-multi-thread", "macros"] }
