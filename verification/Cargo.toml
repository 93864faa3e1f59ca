[package]
name = "openroom"
version = "0.1.0"
edition = "2021"
publish = false

[dependencies]
image = "=0.25.10"
rawloader = "=0.37.2"
wgpu = "=0.19.4"
pollster = "=1.0.1"
futures-intrusive = "=0.5.0"
serde = { version = "=1.0.229", features = ["derive"] }
serde_json = "=1.0.151"
kamadak-exif = "=0.6.1"
walkdir = "=2.5.0"
uuid = { version = "=1.27.0", features = ["v4"] }
dirs = "=7.0.0"
once_cell = "=1.21.4"
