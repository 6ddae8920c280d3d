[package]
name = "chip8"
version = "0.1.0"
edition = "2021"
publish = false

[dependencies]
rand = "=0.10.3"
minifb = "=0.29.0"
rodio = { version = "=0.22.2", default-features = false, features = ["playback"] }
