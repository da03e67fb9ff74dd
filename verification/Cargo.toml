[package]
name = "mass_dvd_backup"
version = "0.1.0"
edition = "2021"
publish = false

[dependencies]
eject = "=0.1.1"
ffmpeg-sidecar = "=2.6.0"
sys-mount = { version = "=2.1.1", default-features = false }
