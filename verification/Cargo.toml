[package]
name = "daedalus"
version = "0.1.0"
edition = "2021"
publish = false

[dependencies]
serde_json = "=1.0.154"
wgpu = { version = "=29.0.4", default-features = false }
clap = { version = "=4.6.7", features = ["derive"] }
serde = { version = "=1.0.229", features = ["derive"] }
toml = "=0.9.12"
notify = "=8.2.1"
crossbeam-channel = "=0.5.17"
futures = { version = "=0.3.34", default-features = false, features = ["std"] }
memmap2 = "=0.9.12"
bevy = { version = "=0.19.1", default-features = false, features = ["std", "bevy_log", "bevy_window", "bevy_camera", "bevy_light", "bevy_gltf", "gamepad", "keyboard", "mouse"] }
avian3d = { version = "=0.7.0", default-features = false, features = ["3d", "f32", "parry-f32", "collider-from-mesh"] }
