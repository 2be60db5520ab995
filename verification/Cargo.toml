[package]
name = "knowledge_companion"
version = "0.1.0"
edition = "2021"
publish = false

[dependencies]
meval = "*"
serde = { version = "*", features = ["derive"] }
serde_json = "*"
reqwest = { version = "*", default-features = false, features = ["json"] }
tokio = { version = "*", features = ["rt-multi-thread", "macros", "time"] }
chrono = "*"
dirs = "*"
uuid = { version = "*", features = ["v4"] }
walkdir = "*"
