[package]
name = "hls_proxy"
version = "0.1.0"
edition = "2021"
publish = false

[dependencies]
url = "*"
urlencoding = "*"
axum = "*"
tokio = { version = "*", features = ["rt-multi-thread", "net", "sync", "macros"] }
reqwest = { version = "*", default-features = false, features = ["stream"] }
serde = { version = "*", features = ["derive"] }
