[package]
name = "shader-slang"
version = "0.1.0"
edition = "2021"
publish = false

[dependencies]
bindgen = "0.72"
serde = { version = "1", features = ["derive"] }
