[package]
name = "hexworld"
version = "0.1.0"
edition = "2021"
publish = false

[dependencies]
rand = "0.9"
glam = "0.29"
glium = "0.34"
winit = "0.29"
image = { version = "0.25", default-features = false, features = ["png"] }
