[package]
name = "bevy_integrator"
version = "0.1.0"
edition = "2021"
publish = false

[dependencies]
bevy = { version = "0.10", default-features = false, features = ["bevy_asset", "bevy_core_pipeline", "bevy_pbr", "bevy_render"] }
rusqlite = { version = "0.29", features = ["bundled"] }
