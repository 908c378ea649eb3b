[package]
name = "tux_icons"
version = "0.1.0"
edition = "2021"
publish = false

[dependencies]
clap = { version = "=4.6.7", features = ["derive"] }
dirs = "=7.0.0"
freedesktop-desktop-entry = "=0.8.4"
walkdir = "=2.5.0"

[dev-dependencies]
rustix = { version = "=1.1.5", features = ["fs"] }
tempfile = "=3.27.0"
