[package]
name = "wgpu_animator"
version = "0.1.0"
edition = "2021"
publish = false

[dependencies]
anyhow = "1"
bytemuck = { version = "1", features = ["derive"] }
clap = { version = "4", features = ["derive"] }
egui = "0.29"
egui-wgpu = "0.29"
egui-winit = { version = "0.29", default-features = false }
env_logger = "0.11"
log = "0.4"
pollster = "0.3"
wgpu = "22"
winit = "0.30"
