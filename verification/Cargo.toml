[package]
name = "tank_arena"
version = "0.1.0"
edition = "2021"
publish = false

[dependencies]
bevy = { version = "=0.5.0", default-features = false, features = ["render", "bevy_winit", "bevy_wgpu", "png", "x11"] }
darling = "=0.10.2"
