[package]
name = "replication"
version = "0.1.0"
edition = "2021"
publish = false

[dependencies]
bincode = "1.3"
bevy = { version = "0.16", default-features = false, features = ["std", "bevy_pbr", "bevy_window"] }
bevy_renet = "2"
