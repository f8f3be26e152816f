[package]
name = "zelda_rs"
version = "0.1.0"
edition = "2021"
publish = false

[dependencies]
bevy = { version = "=0.14.2", default-features = false, features = ["bevy_state", "bevy_asset"] }
avian2d = { version = "=0.1.2", default-features = false, features = ["2d", "f32", "parry-f32"] }
rand = "=0.8.8"
autodefault = "=2.0.0"
