[package]
name = "wasmer-gpu-demo"
version = "0.1.0"
edition = "2021"
publish = false

[dependencies]
anyhow = "1"
bytemuck = { version = "1", features = ["derive"] }
pollster = "0.3"
serde = { version = "1", features = ["derive"] }
serde_json = "1"
tokio = { version = "1", features = ["rt-multi-thread"] }
wasmer = { version = "=7.1.0", default-features = false, features = ["sys", "cranelift"] }
wat = "=1.258.3"
wgpu = "0.19"
