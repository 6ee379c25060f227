[package]
name = "macintosh_wallpaper"
version = "0.1.0"
edition = "2021"
publish = false

[dependencies]
anyhow = "1"
bincode = { version = "2", features = ["serde"] }
bitvec = "1"
clap = { version = "4", features = ["derive"] }
image = { version = "0.25", default-features = false, features = ["png"] }
nalgebra = { version = "0.33", features = ["serde-serialize"] }
rand = "0.9"
serde = { version = "1", features = ["derive"] }
toml = "0.8"
