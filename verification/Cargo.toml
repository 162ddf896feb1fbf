[package]
name = "vkengine"
version = "0.1.0"
edition = "2021"
publish = false

[dependencies]
anyhow = "1"
ash = "0.38"
ash-window = "0.13"
bytemuck = { version = "1", features = ["derive"] }
crossbeam-channel = "0.5"
env_logger = "0.11"
glam = { version = "0.29", features = ["bytemuck"] }
hecs = "0.10"
iced = { version = "0.13", default-features = false }
image = { version = "0.25", default-features = false, features = ["png", "jpeg"] }
log = "0.4"
mlua = { version = "0.10", features = ["lua54", "vendored"] }
parking_lot = "0.12"
rapier3d = "0.22"
raw-window-handle = "0.6"
uuid = { version = "1", features = ["v4"] }
winit = "0.30"
