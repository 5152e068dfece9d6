[package]
name = "ascii_raster"
version = "0.1.0"
edition = "2021"
publish = false

[dependencies]
clap = { version = "*", features = ["derive"] }
image = { version = "*", default-features = false, features = ["jpeg", "png"] }
