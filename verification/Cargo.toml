[package]
name = "horn_shunck_rs"
version = "0.1.0"
edition = "2021"
publish = false

[dependencies]
anyhow = "*"
bytemuck = { version = "*", features = ["derive"] }
ndarray = "*"
nokhwa = { version = "*", features = ["input-native"] }
numpy = "*"
pollster = "*"
pyo3 = "*"
wgpu = "*"
winit = "*"
