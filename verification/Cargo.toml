[package]
name = "kefirdrop"
version = "0.1.0"
edition = "2021"
publish = false

[dependencies]
anyhow = "=1.0.104"
bytemuck = { version = "=1.25.2", features = ["derive"] }
env_logger = "=0.11.11"
libpulse-binding = "=2.30.1"
libpulse-simple-binding = "=2.29.0"
log = "=0.4.35"
pollster = "=0.4.0"
ringbuf = "=0.4.8"
rustfft = "=6.4.1"
serde = { version = "=1.0.229", features = ["derive"] }
toml = "=0.8.23"
wgpu = "=24.0.5"
winit = "=0.30.13"

[dev-dependencies]
naga = { version = "=24.0.0", features = ["wgsl-in"] }
