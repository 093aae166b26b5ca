[package]
name = "b2router"
version = "0.1.0"
edition = "2021"
publish = false

[dependencies]
chrono = "0.4"
hmac-sha256 = "*"
