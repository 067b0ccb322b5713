[package]
name = "wsrx"
version = "0.4.0"
edition = "2021"
publish = false

[dependencies]
rand = "0.8"
chrono = "*"
sys-locale = "*"
tokio = { version = "*", features = ["full"] }
tokio-util = { version = "*", features = ["full"] }
tokio-tungstenite = "*"
futures-util = "*"
axum = { version = "*", features = ["ws"] }
serde = { version = "*", features = ["derive"] }
serde_json = "*"
reqwest = { version = "*", default-features = false }
