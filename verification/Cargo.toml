[package]
name = "grid_select"
version = "0.1.0"
edition = "2021"
publish = false

[dependencies]
anyhow = "=1.0.104"
argh = "=0.1.19"
bytemuck = "=1.25.2"
cosmic-text = "=0.19.0"
env_logger = "=0.11.11"
raqote = "=0.8.5"
serde = { version = "=1.0.229", features = ["derive"] }
smithay-client-toolkit = { version = "=0.21.1", default-features = false, features = ["calloop"] }
toml = "=1.1.6"
wayland-client = "=0.31.15"
xdg = "=3.0.0"
