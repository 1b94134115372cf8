[package]
name = "advisory_db"
version = "0.1.0"
edition = "2021"
publish = false

[dependencies]
rusqlite = { version = "*", features = ["serde_json"] }
serde = { version = "*", features = ["derive"] }
serde_json = "*"
