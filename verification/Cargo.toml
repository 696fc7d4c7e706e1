[package]
name = "lidart"
version = "0.1.0"
edition = "2021"
publish = false

[dependencies]
apriltag = "*"
futures = "0.3"
image = { version = "0.25", default-features = false, features = ["jpeg", "png"] }
serde = { version = "1", features = ["derive"] }
serde_json = "1"
serialport = { version = "4", default-features = false }
tokio = { version = "1", features = ["full"] }
warp = "0.3"
