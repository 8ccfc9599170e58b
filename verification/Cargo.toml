[package]
name = "dsh-ui"
version = "0.1.0"
edition = "2021"
publish = false

[dependencies]
image = { version = "0.25", default-features = false, features = ["png"] }
libc = "0.2"
objc2 = "0.6"
objc2-app-kit = "0.3"
objc2-foundation = "0.3"
portable-pty = "*"
serde = { version = "1", features = ["derive"] }
serde_json = "1"
url = "2"
