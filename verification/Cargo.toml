[package]
name = "pomc"
version = "0.1.0"
edition = "2021"
publish = false

[dependencies]
azalea-block = "=0.16.0"
azalea-core = "=0.16.0"
serde = { version = "=1.0.229", features = ["derive"] }
serde_json = "=1.0.154"
log = "=0.4.35"
ash = "=0.38.0"
gpu-allocator = { version = "=0.27.0", default-features = false, features = ["vulkan"] }
egui = "=0.32.3"
winit = "=0.30.13"
png = "=0.17.16"
image = { version = "=0.25.10", default-features = false, features = ["png"] }
bytemuck = { version = "=1.25.2", features = ["derive"] }
wgpu = { version = "=30.0.1", default-features = false }
