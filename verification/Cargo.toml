[package]
name = "capview"
version = "0.1.0"
edition = "2021"
publish = false

[dependencies]
anyhow = "1"
ash = "0.38"
clap = { version = "4", features = ["derive"] }
glow = "*"
libc = "0.2"
sdl2 = "0.37"
wayland-client = "0.31"
wayland-protocols = { version = "*", features = ["client", "staging"] }
wayland-protocols-wlr = { version = "*", features = ["client"] }
