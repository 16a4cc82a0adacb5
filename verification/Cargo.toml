[package]
name = "realworld"
version = "0.1.0"
edition = "2021"
publish = false

[dependencies]
jsonwebtoken = { version = "=11.1.0", default-features = false, features = ["rust_crypto"] }
serde_json = "=1.0.151"
bcrypt = "=0.19.3"
chrono = "=0.4.45"
