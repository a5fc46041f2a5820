[package]
name = "token_maker"
version = "0.1.0"
edition = "2021"
publish = false

[dependencies]
image = { version = "0.24", default-features = false, features = ["png", "jpeg", "webp"] }
dirs = "5"
ron = "0.8"
serde = { version = "1", features = ["derive"] }
tokio = { version = "1", features = ["rt", "macros"] }
iced = { version = "0.8", default-features = false, features = ["glow", "image", "canvas", "tokio"] }
iced_native = "0.9"
iced_graphics = "0.7"
