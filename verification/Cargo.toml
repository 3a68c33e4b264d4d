[package]
name = "remote_control"
version = "0.1.0"
edition = "2021"
publish = false

[dependencies]
axum = "0.8"
qr2term = "*"
serde = { version = "1", features = ["derive"] }
tokio = { version = "1", features = ["macros", "net", "rt-multi-thread", "sync"] }
toml = "*"
uuid = { version = "1", features = ["v4"] }
