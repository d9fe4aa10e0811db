[package]
name = "trickfilm"
version = "0.1.0"
edition = "2021"
publish = false

[dependencies]
bevy = { version = "0.12", default-features = false, features = ["bevy_asset"] }
thiserror = "1.0"
