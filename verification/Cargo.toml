[package]
name = "async_rt"
version = "0.1.0"
edition = "2021"
publish = false

[dependencies]
axum = "0.7"
mio = { version = "0.8", features = ["net", "os-poll"] }
tokio = { version = "1", features = ["full"] }
