[package]
name = "feedbot"
version = "0.1.0"
edition = "2021"
publish = false

[dependencies]
url = "*"
chrono = "*"
rss = { version = "*", features = ["validation"] }
serde = { version = "*", features = ["derive"] }
serde_json = "*"
bincode = "1"
redis = "*"
reqwest = { version = "*", default-features = false, features = ["blocking", "json"] }
