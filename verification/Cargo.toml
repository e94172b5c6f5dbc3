[package]
name = "terminal_sessions"
version = "0.1.0"
edition = "2021"
publish = false

[dependencies]
futures-util = "0.3"
libc = "0.2"
serde = { version = "1", features = ["derive"] }
serde_json = "1"
tokio = { version = "1", features = ["full"] }
tokio-tungstenite = "*"
url = "2"
uuid = { version = "1", features = ["v4"] }
