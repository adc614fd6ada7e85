[package]
name = "vex"
version = "0.1.0"
edition = "2021"
publish = false

[dependencies]
glam = { version = "=0.34.2", features = ["mint-05"] }
kira = "=0.10.8"
winit = "=0.30.13"
anyhow = "=1.0.104"
log = "=0.4.35"
