[package]
name = "cell_engine"
version = "0.1.0"
edition = "2021"
publish = false

[dependencies]
rand = "0.8"
winit = "0.26"
pixels = "0.9"
