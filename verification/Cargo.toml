[package]
name = "stiv"
version = "0.1.0"
edition = "2021"
publish = false

[dependencies]
anyhow = "1"
base64 = "0.22"
clap = { version = "4", features = ["derive"] }
crossterm = "*"
fast_image_resize = "*"
image = { version = "0.25", default-features = false, features = ["png", "jpeg"] }
imagesize = "*"
log = "0.4"
rand = "*"
ratatui = "*"
rustix = { version = "1", features = ["fs", "mm", "shm"] }
tempfile = "3"
