[package]
name = "supraseal"
version = "0.1.0"
edition = "2021"
publish = false

[dependencies]
anyhow = "1"
fil_logger = "*"
hex = "0.4"
log = "0.4"
serde = { version = "1", features = ["derive"] }
serde-hex = "*"
serde_json = "1"
sppark = "*"
