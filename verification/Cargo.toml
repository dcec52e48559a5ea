[package]
name = "crim"
version = "0.1.0"
edition = "2021"
publish = false

[dependencies]
argon2 = "0.5"
base64 = "0.21"
chrono = "0.4"
colored = "2"
dotenv = "0.15"
getrandom = "0.2"
hex = "0.4"
mongodb = { version = "2", default-features = false, features = ["tokio-sync"] }
openssl = "0.10"
rand = "0.8"
serde = { version = "1", features = ["derive"] }
serde_json = "1"
