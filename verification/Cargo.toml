[package]
name = "standing_desk"
version = "0.1.0"
edition = "2021"
publish = false

[dependencies]
anyhow = "1"
log = "0.4"
rppal = "*"
serde = { version = "1", features = ["derive"] }
toml = "*"
