[package]
name = "my-rss-feeder"
version = "0.1.0"
edition = "2021"
publish = false

[dependencies]
feed-rs = "2"
scraper = "*"
url = "2"
sha2 = "0.10"
chrono = "0.4"
uuid = { version = "1", features = ["v4"] }
reqwest = "0.12"
rusqlite = { version = "*", features = ["bundled"] }
tokio = { version = "1", features = ["sync", "time", "macros", "rt"] }
serde = { version = "1", features = ["derive"] }
