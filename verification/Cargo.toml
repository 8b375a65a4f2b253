[package]
name = "bio"
version = "0.1.0"
edition = "2021"
publish = false

[dependencies]
crossterm = { version = "0.23", features = ["serde"] }
regex = "1"
serde = { version = "1", features = ["derive"] }
serde_json = "1"
serde_regex = "1"
termy = "*"
