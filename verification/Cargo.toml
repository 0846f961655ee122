[package]
name = "verner"
version = "0.1.0"
edition = "2021"
publish = false

[dependencies]
anyhow = "1"
clap = { version = "4", features = ["derive"] }
git2 = { version = "*", default-features = false }
inline_colorization = "*"
path-absolutize = "3"
regex = "1"
serde = { version = "1", features = ["derive"] }
serde_yaml = "0.9"
