[package]
name = "sunny_flowers"
version = "0.1.0"
edition = "2021"
publish = false

[dependencies]
url = "2"
rand = { version = "0.8", features = ["small_rng"] }
