[package]
name = "pill_engine"
version = "0.1.0"
edition = "2021"
publish = false

[dependencies]
bitvec = "=1.1.1"
renet = "=1.2.0"
renet_netcode = "=1.2.0"
wgpu = "=30.0.1"
bincode = "=1.3.3"
serde = { version = "=1.0.229", features = ["derive"] }
colored = "=3.1.1"
anyhow = "=1.0.104"
log = "=0.4.35"
env_logger = "=0.11.11"
chrono = "=0.4.45"
tobj = "=4.0.5"
bytemuck = { version = "=1.25.2", features = ["derive"] }
glam = { version = "=0.34.2", features = ["serde"] }
indexmap = "=2.14.2"
