[package]
name = "antirev"
version = "0.1.0"
edition = "2021"
publish = false

[dependencies]
argon2 = "*"
uuid = { version = "*", features = ["v4"] }
