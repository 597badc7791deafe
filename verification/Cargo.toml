[package]
name = "farm_defense"
version = "0.1.0"
edition = "2021"
publish = false

[dependencies]
pathfinding = "4"
rand = "0.8"
bevy = { version = "0.16", default-features = false, features = ["std", "bevy_window"] }
avian2d = { version = "0.3", default-features = false, features = ["2d", "f32", "parry-f32"] }
