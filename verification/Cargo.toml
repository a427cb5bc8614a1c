[package]
name = "firmware-core"
version = "0.1.0"
edition = "2021"
publish = false

[dependencies]
embedded-hal = "1.0"
argon2 = "0.5"
rand_core = { version = "0.6", features = ["getrandom"] }
