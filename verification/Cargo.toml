[package]
name = "fermi_term"
version = "0.1.0"
edition = "2021"
publish = false

[dependencies]
vte = "0.13"
winit = { version = "0.29", default-features = false, features = ["rwh_06", "x11"] }
fontdue = "0.8"
pollster = "0.3"
portable-pty = "0.8"
bytemuck = { version = "1", features = ["derive"] }
serde = { version = "1", features = ["derive"] }
toml = "0.8"
