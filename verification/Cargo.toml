[package]
name = "qwen_imager"
version = "0.1.0"
edition = "2021"
publish = false

[dependencies]
base64 = "0.22"
serde = { version = "1", features = ["derive"] }
serde_json = "1"
reqwest = { version = "0.12", features = ["json"] }
rusqlite = { version = "*", features = ["bundled"] }
tokio = { version = "1", features = ["time"] }
uuid = { version = "1", features = ["v4"] }
dirs = "*"
thiserror = "*"
