[package]
name = "koyori_task"
version = "0.1.0"
edition = "2021"
publish = false

[dependencies]
base64 = "=0.22.1"
hex = "=0.4.3"
rand = "=0.9.5"
reqwest = { version = "=0.12.28", default-features = false, features = ["json"] }
serde = { version = "=1.0.229", features = ["derive"] }
serde_json = "=1.0.154"
serde_yaml_ng = "=0.10.0"
sha2 = "=0.10.9"
uuid = { version = "=1.29.0", features = ["v4", "serde"] }
