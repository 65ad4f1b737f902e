[package]
name = "wl-shortcuts-overlay"
version = "0.1.0"
edition = "2021"
publish = false

[dependencies]
anyhow = "1"
clap = { version = "4", features = ["derive"] }
cosmic-text = "*"
dirs = "*"
env_logger = "*"
input = "*"
libc = "0.2"
log = "0.4"
nix = { version = "*", features = ["fs"] }
notify = "*"
serde = { version = "1", features = ["derive"] }
smithay-client-toolkit = "*"
tiny-skia = "*"
toml = "*"
wayland-client = "*"
xkbcommon = "*"
xkeysym = "*"
