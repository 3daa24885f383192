[package]
name = "rust_player"
version = "0.1.0"
edition = "2021"
publish = false

[dependencies]
log = "=0.4.35"
env_logger = "=0.11.11"
thiserror = "=2.0.21"
parking_lot = "=0.12.5"
symphonia = { version = "=0.5.5", features = ["mp3", "aac", "isomp4"] }
mp4 = "=0.14.0"
mp4parse = { version = "=0.17.0", features = ["unstable-api"] }
rav1d = { version = "=1.1.0", default-features = false, features = ["bitdepth_8"] }
openh264 = "=0.8.1"
openh264-sys2 = "=0.8.1"
rust_h265 = "=0.4.0"
reqwest = { version = "=0.12.28", default-features = false, features = ["blocking"] }
tempfile = "=3.27.0"
