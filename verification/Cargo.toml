[package]
name = "wl_mitmproxy"
version = "0.1.0"
edition = "2021"
publish = false

[dependencies]
clap = { version = "4", features = ["derive", "env"] }
libc = "0.2"
signal-hook = "0.3"
wl-proxy = { version = "*", features = ["suite-wayland-protocols"] }
