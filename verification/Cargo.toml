[package]
name = "bevy_remote"
version = "0.1.0"
edition = "2021"
publish = false

[dependencies]
bevy_ecs = "=0.20.1"
bevy_reflect = { version = "=0.20.1", features = ["reflect_documentation"] }
serde = { version = "=1.0.229", features = ["derive"] }
serde_json = "=1.0.154"
