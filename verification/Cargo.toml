[package]
name = "ethervoid"
version = "0.1.0"
edition = "2021"
publish = false

[dependencies]
macroquad = "=0.4.16"
serde = { version = "=1.0.229", features = ["derive"] }
ron = "=0.8.1"
serde_json = "=1.0.154"
walkdir = "=2.5.0"
tracing = "=0.1.44"
image = "=0.25.10"
hashbrown = "=0.15.5"
bincode = "=2.0.1"
zstd = "=0.13.4"
rustc-hash = "=2.1.3"
rayon = "=1.12.0"
fast_image_resize = { version = "5", features = ["image"] }
