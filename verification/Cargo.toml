[package]
name = "hengjing"
version = "0.1.0"
edition = "2021"
rust-version = "1.95"
publish = false

[dependencies]
anyhow = "1"
reqwest = { version = "=0.12.28", default-features = false }
serde = { version = "1", features = ["derive"] }
serde_json = "=1.0.154"
takecell = "=0.1.1"
tauri = { version = "=2.12.5", default-features = false }
teloxide = { version = "=0.15.0", default-features = false }
tokio = { version = "1", features = ["macros", "rt", "sync", "time"] }
uuid = { version = "=1.29.0", features = ["v4"] }
