[package]
name = "xremap"
version = "0.1.0"
edition = "2021"
publish = false

[dependencies]
anyhow = "1"
clap = { version = "4", features = ["derive"] }
clap_complete = "4"
env_logger = "*"
evdev = "0.13"
libc = "0.2"
log = "0.4"
nix = { version = "0.29", features = ["time", "event", "inotify", "fs", "poll"] }
