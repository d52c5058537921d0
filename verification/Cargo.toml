[package]
name = "code_ai_assistant"
version = "0.1.0"
edition = "2021"
publish = false

[dependencies]
uuid = { version = "1", features = ["v4"] }
dirs = "5"
tokio = { version = "1", features = ["process", "io-util", "rt", "rt-multi-thread", "time"] }
serde = { version = "1", features = ["derive"] }
serde_json = "1"
chrono = "0.4"
thiserror = "1"
anyhow = "1"
toml = "0.8"
