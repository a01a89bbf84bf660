[package]
name = "pico_limbo"
version = "0.1.0"
edition = "2021"
publish = false

[dependencies]
aes-gcm = "0.10"
base64 = "0.22"
sha2 = "0.10"
uuid = "1"
serde = { version = "1", features = ["derive"] }
serde_json = "1"
flate2 = "1"
regex = "1"
futures = "0.3"
