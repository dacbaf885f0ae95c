[package]
name = "framework"
version = "0.1.0"
edition = "2021"
publish = false

[dependencies]
wgpu = { version = "=30.0.1", features = ["noop"] }
winit = "=0.30.13"
glam = "=0.34.2"
bytemuck = { version = "=1.25.2", features = ["derive"] }
gltf = "=1.4.1"
image = { version = "=0.25.10", default-features = false, features = ["png", "jpeg"] }
pollster = "=1.0.1"
rand = "=0.10.3"
tobj = "=4.0.5"
