[package]
name = "behavior_scorer"
version = "0.1.0"
edition = "2021"
publish = false

[dependencies]
regex = "*"
chrono = "*"
clap = { version = "*", features = ["derive"] }
walkdir = "*"
serde = { version = "*", features = ["derive"] }
serde_json = "*"
