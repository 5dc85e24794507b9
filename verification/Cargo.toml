[package]
name = "rust_captcha"
version = "0.1.0"
edition = "2021"
publish = false

[dependencies]
base64 = "0.22"
lodepng = "*"
rand = "0.8"
uuid = { version = "1", features = ["v4"] }
redis = "*"
serde = { version = "1", features = ["derive"] }
serde_json = "1"
time = "0.3"
libc = "0.2"
getopts = "0.2"
