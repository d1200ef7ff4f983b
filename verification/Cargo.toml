[package]
name = "cagario"
version = "0.1.0"
edition = "2021"
publish = false

[dependencies]
rand = "0.8"
serde = { version = "1", features = ["derive"] }
bincode = "1.3"
bevy = { version = "0.9", default-features = false, features = ["bevy_asset", "bevy_core_pipeline", "bevy_pbr", "bevy_render"] }
bevy_renet = "0.0.6"
bevy_rapier3d = { version = "0.19", default-features = false, features = ["dim3"] }
