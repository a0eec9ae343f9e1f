[package]
name = "rnake"
version = "0.1.0"
edition = "2021"
publish = false

[dependencies]
rand = "0.8"
sdl2 = { version = "0.36", features = ["ttf", "mixer"] }
resvg = "0.35"
confy = "0.5"
serde = { version = "1", features = ["derive"] }
