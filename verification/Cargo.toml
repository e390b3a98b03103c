[package]
name = "router"
version = "0.1.0"
edition = "2021"
publish = false

[dependencies]
base64 = "0.22"
chrono = "0.4"
hex = "0.4"
hmac = "0.12"
regex = "1"
sha2 = "0.10"
uuid = { version = "1", features = ["v4"] }
serde = { version = "1", features = ["derive"] }
serde_json = "1"
serde_yaml = "0.9"
actix-web = "4"
actix-cors = "0.7"
dotenvy = "0.15"
num_cpus = "1"
