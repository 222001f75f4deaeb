[package]
name = "macmtp"
version = "0.1.0"
edition = "2021"
publish = false

[dependencies]
block2 = "0.6"
fuser = "=0.17.0"
mtp-rs = "=0.20.0"
objc2 = "0.6"
objc2-app-kit = "0.3"
objc2-foundation = "0.3"
objc2-quartz = "0.3"
tokio = { version = "1", features = ["rt", "time", "net"] }
