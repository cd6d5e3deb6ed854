[package]
name = "remove_bars"
version = "1.0.1"
edition = "2021"
publish = false

[dependencies]
clap = { version = "4", features = ["derive"] }
color-eyre = "0.6"
colored = "*"
console = "*"
ffmpeg-sidecar = { version = "2", default-features = false }
indicatif = "*"
rayon = "1"
regex = "1"
rusqlite = { version = "*", features = ["bundled"] }
walkdir = "2"
