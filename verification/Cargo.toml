[package]
name = "porkbun_ddns"
version = "0.1.0"
edition = "2021"

[dependencies]
gumdrop = "0.8"
reqwest = { version = "0.11", features = ["blocking", "json"] }
serde = { version = "1", features = ["derive"] }
toml = "0.8"
