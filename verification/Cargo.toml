[package]
name = "tilepad_plugin_sdk"
version = "0.1.0"
edition = "2021"
publish = false

[dependencies]
tokio = { version = "*", features = ["sync", "rt", "macros", "net", "time"] }
tokio-tungstenite = "*"
futures-util = "*"
clap = { version = "*", features = ["derive"] }
tracing = "*"
tracing-subscriber = { version = "*", features = ["env-filter", "fmt"] }
serde_json = "*"
parking_lot = "*"
uuid = { version = "*", features = ["v4"] }
