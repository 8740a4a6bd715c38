[package]
name = "gaxibo"
version = "0.1.0"
edition = "2021"
publish = false

[dependencies]
anyhow = "=1.0.104"
crossbeam-channel = "=0.5.17"
gstreamer = "=0.23.7"
itertools = "=0.14.0"
log = "=0.4.35"
parking_lot = "=0.12.5"
tiny_http = "=0.12.0"
wayland-client = { version = "=0.31.15", features = ["system", "dlopen"] }
wayland-protocols = { version = "=0.32.13", features = ["client"] }
