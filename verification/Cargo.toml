[package]
name = "cronwell"
version = "0.1.0"
edition = "2021"
publish = false

[dependencies]
base64 = "0.13"
url = "2"
curl = "0.4"
clap = "2"
libc = "0.2"
serde = { version = "1", features = ["derive"] }
serde_json = "1"
