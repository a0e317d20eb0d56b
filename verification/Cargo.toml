[package]
name = "time_tracker"
version = "0.1.0"
edition = "2021"
publish = false

[dependencies]
chrono = "*"
serde_json = "*"
uuid = { version = "*", features = ["v4"] }
serde = { version = "*", features = ["derive"] }
rusqlite = { version = "*", features = ["bundled"] }
reqwest = { version = "*", default-features = false, features = ["blocking", "json"] }
thiserror = "*"
