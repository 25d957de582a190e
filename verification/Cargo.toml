[package]
name = "activate_linux"
version = "0.1.0"
edition = "2021"
publish = false

[dependencies]
cairo-rs = "0.20"
clap = { version = "4", features = ["derive"] }
libc = "0.2"
wayland-client = "0.31"
wayland-protocols-wlr = { version = "0.3", features = ["client"] }
