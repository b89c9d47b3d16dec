[package]
name = "retime"
version = "0.1.0"
edition = "2021"
publish = false

[dependencies]
rapier3d = "*"
serde = { version = "1", features = ["derive"] }
serde_yaml = "*"
