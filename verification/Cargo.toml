[package]
name = "gameboy"
version = "0.1.0"
edition = "2021"
publish = false

[dependencies]
chrono = "0.4"
sdl2 = "0.37"

[dev-dependencies]
rand = "0.8"
