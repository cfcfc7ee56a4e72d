[package]
name = "decompose"
version = "0.1.0"
edition = "2021"
publish = false

[dependencies]
clap = { version = "4", features = ["derive"] }
image = { version = "0.25", default-features = false, features = ["png", "jpeg", "gif", "bmp"] }
lab = "0.11"
luv = "0.9"
rayon = "1"
srgb = "0.3"
webp = { version = "0.3", default-features = false }
