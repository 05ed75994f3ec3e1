[package]
name = "lorenz_trails"
version = "0.1.0"
edition = "2021"
publish = false

[dependencies]
bevy = { version = "0.15", default-features = false, features = ["bevy_asset", "bevy_color", "bevy_core_pipeline", "bevy_pbr", "bevy_render", "bevy_window", "bevy_winit", "x11"] }
bevy_panorbit_camera = { version = "0.21", default-features = false }
bytemuck = "1"
wgpu-types = "23"
