[package]
name = "wlx_monitors"
version = "0.1.0"
edition = "2021"
publish = false

[dependencies]
wayland-client = "*"
wayland-protocols-wlr = { version = "*", features = ["client"] }
rustix = { version = "*", features = ["event", "time"] }
