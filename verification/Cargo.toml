[package]
name = "apu650_probe"
version = "0.1.0"
edition = "2021"
publish = false

[dependencies]
libc = "0.2"
nix = { version = "*", features = ["ioctl", "poll"] }
anyhow = "1"
