[package]
name = "tables"
version = "0.1.0"
edition = "2021"
publish = false

[dependencies]
regex = "1"
chrono = "0.4"
serde = { version = "1", features = ["derive"] }
serde_json = "1"
google-sheets4 = "*"
tokio = { version = "1", features = ["rt", "macros", "time"] }
