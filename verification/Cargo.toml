[package]
name = "minecraft_diorama"
version = "0.1.0"
edition = "2021"
publish = false

[dependencies]
image = { version = "0.24", default-features = false, features = ["png"] }
pixels = "0.13"
rayon = "1"
winit = "0.28"
