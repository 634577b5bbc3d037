[package]
name = "ff14_avatar"
version = "0.1.0"
edition = "2021"
publish = false

[dependencies]
scraper = "*"
sha2 = "*"
hex = "*"
chrono = "*"
serde = { version = "*", features = ["derive"] }
serde_json = "*"
reqwest = { version = "*", default-features = false }
tokio = { version = "*", features = ["rt-multi-thread", "macros"] }
