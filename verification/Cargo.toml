[package]
name = "cosmic"
version = "0.1.0"
edition = "2021"
publish = false

[dependencies]
iced_core = "*"
serde = { version = "1", features = ["derive"] }
