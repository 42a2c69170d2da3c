[package]
name = "flowfield"
version = "0.1.0"
edition = "2021"
publish = false

[dependencies]
noise = "0.8"
rand = "0.8"
image = "0.24"
pixels = "0.13"
winit = "0.28"
anyhow = "1"
