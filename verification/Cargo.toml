[package]
name = "fractal_forest"
version = "0.1.0"
edition = "2021"
publish = false

[dependencies]
random-number = "*"
wgpu = "=0.15.1"
winit = "=0.27.5"
pollster = "=0.2.5"
bytemuck = { version = "=1.25.2", features = ["derive"] }
env_logger = "=0.9.3"
