[package]
name = "ctm"
version = "0.1.0"
edition = "2021"
publish = false

[dependencies]
chrono = { version = "0.4", default-features = false, features = ["clock"] }
rusqlite = { version = "*", features = ["bundled"] }
serde_json = "1"
