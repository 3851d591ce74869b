[package]
name = "omacal"
version = "0.1.0"
edition = "2021"
publish = false

[dependencies]
jiff = "0.2"
uuid = { version = "1", features = ["v4"] }
serde = { version = "1", features = ["derive"] }
serde_json = "1"
toml = "0.8"
keyring = { version = "3", default-features = false }
tracing = "0.1"
tracing-subscriber = "0.3"
anyhow = "1"
