[package]
name = "raytracer"
version = "0.1.0"
edition = "2021"
publish = false

[dependencies]
clap = { version = "*", features = ["derive"] }
nalgebra = "*"
rand = "0.8"
rayon = "*"
sdl2 = "*"
