[package]
name = "bomberbevy"
version = "0.1.0"
edition = "2021"
publish = false

[dependencies]
rand = "=0.8.8"
bevy = { version = "=0.9.1", default-features = false, features = ["bevy_asset", "bevy_scene", "bevy_winit", "render", "bevy_gltf", "png", "x11"] }
bevy_rapier3d = "=0.19.0"
bevy_egui = "0.17"
bevy-inspector-egui = "0.14"
serde = { version = "=1.0.229", features = ["derive"] }
