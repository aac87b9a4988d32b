[package]
name = "nanaimo"
version = "0.1.0"
edition = "2021"
publish = false

[dependencies]
smithay = { version = "*", default-features = false, features = ["backend_winit", "renderer_gl", "wayland_frontend", "desktop"] }
tracing = "0.1"
tracing-subscriber = { version = "0.3", features = ["env-filter"] }
