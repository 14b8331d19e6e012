[package]
name = "chip8"
version = "0.1.0"
edition = "2021"
publish = false

[dependencies]
rand = { version = "0.8", features = ["small_rng"] }
minifb = "0.25"
rodio = { version = "0.17", default-features = false }
