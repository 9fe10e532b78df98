[package]
name = "bevy_hui"
version = "0.1.0"
edition = "2021"
publish = false

[dependencies]
nom = "7"
thiserror = "1"
owo-colors = "4"
bevy = { version = "0.15", default-features = false, features = ["bevy_ui", "bevy_asset", "bevy_text"] }
