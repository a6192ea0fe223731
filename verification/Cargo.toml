[package]
name = "mg_render"
version = "0.1.0"
edition = "2021"
publish = false

[dependencies]
bytemuck = { version = "1", features = ["derive"] }
gltf = "1.4"
image = { version = "0.24", default-features = false, features = ["png", "jpeg"] }
log = "0.4"
parry3d = "0.17"
wgpu = "0.17"
winit = "0.28"
