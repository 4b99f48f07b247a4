[package]
name = "mr_binaer"
version = "0.1.0"
edition = "2021"
publish = false

[dependencies]
rand = "=0.10.3"
sfml = { version = "=0.20.0", default-features = false, features = ["graphics"] }
