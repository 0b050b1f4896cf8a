[package]
name = "uniform_bindings"
version = "0.1.0"
edition = "2021"
publish = false

[dependencies]
cgmath = "=0.18.0"
env_logger = "=0.11.11"
imgui = { version = "=0.12.0", features = ["docking"] }
imgui-wgpu = "=0.28.0"
imgui-winit-support = "=0.13.0"
mint = "=0.5.9"
pollster = "=1.0.1"
serde_json = "=1.0.154"
wgpu = "=29.0.4"
winit = "=0.30.13"
