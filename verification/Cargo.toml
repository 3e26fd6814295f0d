[package]
name = "cosmic_notifications"
version = "0.1.0"
edition = "2021"
publish = false

[dependencies]
ammonia = "*"
anyhow = "*"
fast_image_resize = "*"
nix = { version = "*", features = ["fs", "socket"] }
ron = "*"
sendfd = "*"
serde = { version = "*", features = ["derive"] }
tokio = { version = "*", features = ["rt-multi-thread", "net", "io-util", "sync", "time", "macros"] }
url = "*"
zbus = { version = "*", features = ["tokio", "p2p"] }
