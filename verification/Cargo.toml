[package]
name = "labyrinth"
version = "0.1.0"
edition = "2021"
publish = false

[dependencies]
bevy = { version = "=0.8.1", default-features = false, features = ["bevy_asset", "render", "png"] }
bevy_asset_loader = { version = "=0.13.0", features = ["3d"] }
bevy_common_assets = { version = "=0.3.0", features = ["ron"] }
bevy_mod_raycast = "=0.6.2"
serde = { version = "1", features = ["derive"] }
