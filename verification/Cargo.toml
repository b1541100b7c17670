[package]
name = "agon_light_vdp"
version = "0.1.0"
edition = "2021"
publish = false

[dependencies]
sdl2 = "0.35.2"
clap = { version = "4", features = ["derive"] }
log = "0.4"
