[package]
name = "rustfest"
version = "0.1.0"
edition = "2021"
publish = false

[dependencies]
gfx = "=0.18.3"
gfx_device_gl = "=0.16.2"
gfx_window_glutin = "=0.31.0"
glutin = "=0.21.2"
lyon = { version = "=0.10.2", features = ["svg", "serialization"] }
resvg = { version = "=0.35.0", default-features = false }
ron = "=0.2.2"
serde = "=1.0.229"
serde_derive = "=1.0.229"
