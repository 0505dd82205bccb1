[package]
name = "gravity_sim"
version = "0.1.0"
edition = "2021"
publish = false

[dependencies]
bevy = { version = "0.9", default-features = false, features = ["bevy_asset", "bevy_winit", "render", "x11"] }
bevy-inspector-egui = "0.14"
rand = "0.8"
