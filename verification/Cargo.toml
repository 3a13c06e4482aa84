[package]
name = "crosshair_overlay"
version = "0.1.0"
edition = "2021"
publish = false

[dependencies]
debug_print = "=1.0.0"
device_query = "=4.0.1"
lazy_static = "=1.5.1"
native-dialog = "=0.9.7"
png = "=0.18.1"
serde = { version = "=1.0.229", features = ["derive"] }
softbuffer = "*"
toml = "=1.1.7"
winapi = "=0.3.9"
winit = "=0.30.13"
