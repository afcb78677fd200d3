[package]
name = "containr"
version = "0.1.0"
edition = "2021"
publish = false

[dependencies]
uuid = { version = "1", features = ["v4", "v5"] }
chrono = "0.4"
aes-gcm = "0.10"
sha2 = "0.10"
base64 = "0.22"
rand = "0.9"
croner = "*"
serde = { version = "1", features = ["derive"] }
serde_json = "1"
toml = "0.8"
anyhow = "1"

[dev-dependencies]
tempfile = "3"
