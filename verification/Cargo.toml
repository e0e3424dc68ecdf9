[package]
name = "stream_json"
version = "0.1.0"
edition = "2021"
publish = false

[dependencies]
bytes = "1"
base64 = "0.22"
futures-core = "0.3"
serde_json = "1"
thiserror = "*"
