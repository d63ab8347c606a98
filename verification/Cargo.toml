[package]
name = "raph"
version = "0.1.0"
edition = "2021"
publish = false

[dev-dependencies]
chumsky = { version = "*", default-features = false, features = ["std"] }
