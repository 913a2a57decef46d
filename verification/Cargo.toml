[package]
name = "belote_libre_backend"
version = "0.1.0"
edition = "2021"
publish = false

[dependencies]
rand = "0.8"

[dev-dependencies]
itertools = "0.12"
