[package]
name = "amlang"
version = "0.1.0"
edition = "2021"
publish = false

[dependencies]
bimap = "*"
serde = { version = "1", features = ["derive"] }
