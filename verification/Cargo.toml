[package]
name = "rust_invaders"
version = "0.1.0"
edition = "2021"
publish = false

[dependencies]
bevy = { version = "0.10", default-features = false, features = ["bevy_sprite", "bevy_render", "bevy_core_pipeline", "bevy_asset", "bevy_winit", "png", "x11"] }
rand = "0.8"
