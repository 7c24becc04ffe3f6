[package]
name = "wayland-display-core"
version = "0.1.0"
edition = "2021"
publish = false

[dependencies]
ash = "=0.38.0"
serde = { version = "=1.0.229", features = ["derive"] }
smithay = { version = "=0.7.0", default-features = false, features = ["wayland_frontend", "desktop", "backend_drm"] }
tracing = "=0.1.44"

[dev-dependencies]
drm-fourcc = "=2.2.0"
