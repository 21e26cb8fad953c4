[package]
name = "rig_runtime"
version = "0.1.0"
edition = "2021"
publish = false

[dependencies]
async-stream = "0.3"
bevy_ecs = { version = "0.17", default-features = false, features = ["std"] }
futures = "0.3"
jsonschema = { version = "*", default-features = false }
schemars = "1"
serde = { version = "1", features = ["derive"] }
serde_json = "1"
thiserror = "2"
tokio = { version = "1", features = ["sync", "rt", "macros", "time"] }
