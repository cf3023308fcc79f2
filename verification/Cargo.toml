[package]
name = "ambisonic"
version = "0.4.0"
edition = "2021"
publish = false

[dependencies]
rodio = { version = "0.13", default-features = false }
