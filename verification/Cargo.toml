[package]
name = "imggen"
version = "0.1.0"
edition = "2021"
publish = false

[dependencies]
anyhow = "1"
clap = { version = "=4.6.7", features = ["derive"] }
fatfs = { version = "=0.3.6", default-features = false, features = ["std", "alloc"] }
fscommon = "0.1"
nix = { version = "=0.31.3", features = ["ioctl"] }
reqwest = { version = "=0.12.28", default-features = false, features = ["blocking"] }
squashfs-ng = "=0.1.4"
tempfile = "3"
url = "=2.5.8"
