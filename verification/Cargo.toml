[package]
name = "factoryfactory"
version = "0.1.0"
edition = "2021"
publish = false

[dependencies]
flate2 = "=1.1.10"
bincode = "=2.0.1"
serde = { version = "=1.0.229", features = ["derive"] }
noise = "=0.9.0"
rand = "=0.9.5"
bevy = { version = "0.16", default-features = false, features = ["bevy_sprite", "bevy_ui", "bevy_text", "bevy_asset", "bevy_window", "bevy_render", "bevy_core_pipeline", "png", "default_font"] }
bevy_embedded_assets = { version = "0.13", default-features = false }
