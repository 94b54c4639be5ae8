[package]
name = "m2joy"
version = "0.1.0"
edition = "2021"
publish = false

[dependencies]
clap = { version = "4", features = ["derive"] }
env_logger = "0.11"
evdev = "0.12"
libc = "0.2"
log = "0.4"
spin_sleep = "1"
