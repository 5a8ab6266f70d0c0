[package]
name = "groupctrl"
version = "0.1.0"
edition = "2021"
publish = false

[dependencies]
anyhow = "1"
bimap = "=0.6.3"
futures-util = "0.3"
global-hotkey = "=0.9.0"
log = "0.4"
objc2-app-kit = "0.3"
objc2-foundation = "0.3"
simplelog = "0.12"
uuid = { version = "=1.29.0", features = ["v4"] }
