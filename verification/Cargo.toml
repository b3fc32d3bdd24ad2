[package]
name = "shadow_maps"
version = "0.1.0"
edition = "2021"
publish = false

[dependencies]
bytemuck = "*"
glam = { version = "=0.29.3", features = ["bytemuck"] }
