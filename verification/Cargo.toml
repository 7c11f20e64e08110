[package]
name = "aiterm"
version = "0.1.0"
edition = "2021"
publish = false

[dependencies]
uuid = { version = "*", features = ["v4"] }
rand = "*"
serde_json = "*"
axum = { version = "*", features = ["ws"] }
tokio = { version = "*", features = ["full"] }
futures-util = "*"
dirs = "*"
libc = "*"
