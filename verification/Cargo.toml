[package]
name = "wezterm_parallel"
version = "0.3.0"
edition = "2021"
publish = false

[dependencies]
serde = { version = "=1.0.229", features = ["derive"] }
serde_json = "=1.0.154"
serde_yaml = "=0.9.34"
chrono = "=0.4.45"
uuid = { version = "=1.29.0", features = ["v4"] }
tokio-tungstenite = "*"
