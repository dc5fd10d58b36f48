[package]
name = "pixie"
version = "0.1.0"
edition = "2021"
publish = false

[dependencies]
hecs = "*"
winit = "0.30"
wgpu = "*"
instant = "0.1"
log = "0.4"
pollster = "*"
bytemuck = { version = "1", features = ["derive"] }
cgmath = "0.18"
fontdue = "*"
specs = { version = "*", default-features = false }
