[package]
name = "volume_mixer_core"
version = "0.1.0"
edition = "2021"
publish = false

[dependencies]
sysinfo = "*"
base64 = "*"
serde = { version = "*", features = ["derive"] }
serde_json = "*"

[dependencies.image]
version = "*"
default-features = false
features = ["png"]
