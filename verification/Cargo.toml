[package]
name = "voxelframe"
version = "0.1.0"
edition = "2021"
publish = false

[dependencies]
rand = "0.8"
bytemuck = "1"
wgpu = "0.15"
winit = "0.27"
pollster = "0.2"
env_logger = "0.9"
