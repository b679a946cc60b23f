[package]
name = "flock"
version = "0.1.0"
edition = "2021"
publish = false

[dependencies]
bevy = { version = "0.9", default-features = false, features = ["bevy_asset", "bevy_winit", "render", "x11"] }
bevy_prototype_lyon = "0.7"
