[package]
name = "agent_browser_service"
version = "0.1.0"
edition = "2021"
publish = false

[dependencies]
serde = { version = "1", features = ["derive"] }
serde_json = "1"
sha2 = "0.10"
chrono = "0.4"
uuid = { version = "1", features = ["v4"] }
time = "0.3"
tokio = { version = "1", features = ["rt", "macros", "time"] }
