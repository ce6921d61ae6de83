[package]
name = "universe"
version = "0.1.0"
edition = "2021"
publish = false

[dependencies]
glam = "*"
winit = "*"
wgpu = "*"
pollster = "*"
bytemuck = { version = "*", features = ["derive"] }
easy-gltf = "*"
