[package]
name = "corro_agent"
version = "0.1.0"
edition = "2021"
publish = false

[dependencies]
uuid = { version = "*", features = ["v4"] }
serde = { version = "*", features = ["derive"] }
serde_json = "*"
tokio = { version = "*", features = ["rt", "sync", "time", "macros"] }
rusqlite = { version = "*", features = ["bundled"] }
