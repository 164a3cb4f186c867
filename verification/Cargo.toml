[package]
name = "timetable"
version = "0.1.0"
edition = "2021"
publish = false

[dependencies]
encoding = "0.2"
scraper = "*"
serde = { version = "1", features = ["derive"] }
serde_json = "1"
zip = { version = "*", default-features = false, features = ["deflate"] }
