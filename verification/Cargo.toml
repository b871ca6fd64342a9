[package]
name = "aias_auth_sdk"
version = "0.1.0"
edition = "2021"
publish = false

[dependencies]
base64 = "=0.13.1"
pem = "=0.8.3"
rsa = "=0.3.0"
serde_json = "1"
sha2 = "=0.10.9"

[dev-dependencies]
rand = "=0.7.3"
