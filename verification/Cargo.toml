[package]
name = "ws_mock"
version = "0.1.0"
edition = "2021"
publish = false

[dependencies]
serde = { version = "1", features = ["derive"] }
serde_json = "1"
chrono = { version = "0.4", default-features = false, features = ["now"] }
uuid = { version = "1", features = ["v4"] }
tokio = { version = "1", features = ["net", "sync", "time", "macros", "rt"] }
tokio-tungstenite = "0.24"
futures-util = "0.3"
tauri = { version = "2", default-features = false }
