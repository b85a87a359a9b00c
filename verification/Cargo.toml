[package]
name = "hockeyplots"
version = "0.1.0"
edition = "2021"
publish = false

[dependencies]
rusqlite = { version = "*", features = ["bundled"] }
serde = { version = "*", features = ["derive"] }
serde_json = "*"
serde_rusqlite = "*"
tokio = { version = "*", features = ["rt-multi-thread", "time"] }
reqwest = { version = "*", default-features = false }
env_logger = "*"
