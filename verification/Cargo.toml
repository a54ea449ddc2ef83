[package]
name = "photolog"
version = "0.1.0"
edition = "2021"
publish = false

[dependencies]
chrono = "*"
ron = "*"
serde = { version = "*", features = ["derive"] }
