[package]
name = "ragnarok_rebuild_bevy"
version = "0.1.0"
edition = "2021"
publish = false

[dependencies]
bevy = { version = "0.16", default-features = false, features = ["bevy_asset", "bevy_render", "bevy_pbr", "bevy_scene", "bevy_gizmos", "bevy_animation", "bevy_sprite", "bevy_image"] }
futures = "0.3"
serde = { version = "1", features = ["derive"] }
uuid = { version = "1", features = ["v4"] }
