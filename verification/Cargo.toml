[package]
name = "bevy_procedural_grass"
version = "0.1.0"
edition = "2021"
publish = false

[dependencies]
bevy = { version = "0.16", default-features = false, features = ["std", "bevy_pbr"] }
bytemuck = { version = "1", features = ["derive"] }
rand = "0.8"
log = "0.4"
