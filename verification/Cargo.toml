[package]
name = "tixel"
version = "0.1.0"
edition = "2021"
publish = false

[dependencies]
image = { version = "0.25", default-features = false, features = ["png", "jpeg", "bmp", "gif", "webp"] }
crossterm = "0.28"
clap = { version = "4", features = ["derive"] }
ctrlc = "3"
video-rs = "0.10"
