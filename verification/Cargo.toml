[package]
name = "topic_cache"
version = "0.1.0"
edition = "2021"
publish = false

[dependencies]
data-encoding = "*"
futures = "*"
rusqlite = { version = "*", features = ["bundled"] }
