[package]
name = "raytracing_rs"
version = "0.1.0"
edition = "2021"
publish = false

[dependencies]
cgmath = "0.18"
image = { version = "0.25", default-features = false, features = ["jpeg", "png"] }
