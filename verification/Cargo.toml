[package]
name = "chroot"
version = "0.1.0"
edition = "2021"
publish = false

[dependencies]
sys-mount = { version = "*", default-features = false }
