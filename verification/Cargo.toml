[package]
name = "miv"
version = "0.1.0"
edition = "2021"
publish = false

[dependencies]
unicode-segmentation = "1"
crossterm = "*"
syntect = { version = "5", default-features = false, features = ["default-fancy"] }
config = { version = "*", default-features = false, features = ["toml"] }
serde = { version = "*", features = ["derive"] }
anyhow = "*"
log = "*"
simplelog = "*"
