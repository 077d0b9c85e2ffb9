[package]
name = "coderacer"
version = "0.1.0"
edition = "2021"
publish = false

[dependencies]
termion = "*"
serde = { version = "1", features = ["derive"] }
serde_json = "1"
