[package]
name = "airos"
version = "0.1.0"
edition = "2021"
publish = false

[dependencies]
serde = { version = "1", features = ["derive"] }
rmp-serde = "1"
bincode = "2"
tokio = { version = "1", features = ["full"] }
wgpu = "22"
winit = "0.30"
pollster = "0.3"
