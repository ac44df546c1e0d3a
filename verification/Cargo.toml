[package]
name = "gdrawer"
version = "0.1.0"
edition = "2021"
publish = false

[dependencies]
rand = "=0.9.5"
serde = { version = "=1.0.229", features = ["derive"] }
serde_json = "=1.0.154"
anyhow = "=1.0.104"
walkdir = "=2.5.0"
dirs-next = "=2.0.0"
image = { version = "=0.25.10", default-features = false, features = ["png", "jpeg"] }
rfd = { version = "=0.15.4", default-features = false, features = ["xdg-portal", "tokio"] }
iced = { version = "=0.14.0", default-features = false, features = ["tiny-skia", "x11", "image-without-codecs", "tokio"] }
