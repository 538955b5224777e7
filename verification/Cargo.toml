[package]
name = "shmooz"
version = "0.1.0"
edition = "2021"
publish = false

[dependencies]
bytemuck = "*"
calloop = "*"
calloop-wayland-source = "*"
clap = { version = "*", features = ["derive"] }
memmap2 = "*"
png = "*"
tempfile = "*"
thiserror = "*"
tracing = "*"
tracing-subscriber = { version = "*", features = ["env-filter"] }
wayland-client = "*"
wayland-protocols = { version = "*", features = ["client", "unstable", "staging"] }
wayland-protocols-wlr = { version = "*", features = ["client"] }
xkbcommon = "*"
