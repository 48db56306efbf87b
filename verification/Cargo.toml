[package]
name = "yaak"
version = "0.1.0"
edition = "2021"
publish = false

[dependencies]
base64 = "=0.23.1"
hex = "=0.4.3"
sha1 = "=0.11.0"
serde = { version = "=1.0.229", features = ["derive"] }
serde_json = "=1.0.154"
serde_yaml = "=0.9.34"
keyring = "=4.2.0"
log = "=0.4.34"
charset = "=0.1.5"
mime_guess = "=2.0.5"
md5 = "=0.8.1"
cookie = "=0.18.2"
chrono = { version = "=0.4.45", features = ["serde"] }
tokio = { version = "=1.54.1", features = ["fs", "rt", "rt-multi-thread"] }
wasm-bindgen = "=0.2.129"
serde-wasm-bindgen = "=0.6.5"
