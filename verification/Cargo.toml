[package]
name = "codex_plus_core"
version = "0.1.0"
edition = "2021"
publish = false

[dependencies]
anyhow = "=1.0.104"
base64 = "=0.22.1"
directories = "=6.0.0"
hmac = "=0.12.1"
rsa = "=0.9.10"
serde = { version = "=1.0.229", features = ["derive"] }
serde_json = "=1.0.154"
sha2 = { version = "=0.10.9", features = ["oid"] }
time = "=0.3.55"
toml_edit = "=0.25.17"
uuid = "=1.29.0"
