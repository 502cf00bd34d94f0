[package]
name = "quack_on_ice"
version = "0.1.0"
edition = "2021"
publish = false

[dependencies]
anyhow = "=1.0.104"
bevy = { version = "=0.14.2", default-features = false, features = ["bevy_asset", "bevy_state"] }
bevy_asset_loader = { version = "=0.21.0", default-features = false }
bevy_tweening = { version = "=0.11.0", default-features = false }
thiserror = "=1.0.69"
