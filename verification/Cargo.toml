[package]
name = "libwayshot"
version = "0.3.0"
edition = "2021"
publish = false

[dependencies]
clap = { version = "4", features = ["derive"] }
eyre = "0.6"
image = { version = "0.24", default-features = false, features = ["jpeg", "png", "pnm", "qoi"] }
memmap2 = "0.9"
nix = { version = "0.27", features = ["fs", "mman"] }
thiserror = "1"
tracing = "0.1"
wayland-client = "0.31"
wayland-protocols = { version = "0.31", features = ["client", "unstable"] }
wayland-protocols-wlr = { version = "0.2", features = ["client"] }
