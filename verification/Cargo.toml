[package]
name = "bevy_tilemap"
version = "0.4.0"
edition = "2021"
publish = false

[dependencies]
rectangle-pack = "0.4"
serde = { version = "1", features = ["derive"] }
bevy = { version = "0.5", default-features = false, features = ["render"] }
