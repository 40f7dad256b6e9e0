[package]
name = "asteroids_3d"
version = "0.1.0"
edition = "2021"
publish = false

[dependencies]
anyhow = "1"
bytemuck = { version = "1", features = ["derive"] }
env_logger = "*"
glam = "*"
log = "0.4"
pollster = "*"
rand = "0.9"
web-time = "1"
wgpu = "*"
winit = "0.30"
