[package]
name = "life_core"
version = "0.1.0"
edition = "2021"
publish = false

[dependencies]
rand = "=0.8.8"
sdl2 = { version = "=0.38.0", features = ["ttf"] }
tokio = { version = "=1.53.2", features = ["rt-multi-thread", "macros"] }
