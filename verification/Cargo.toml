[package]
name = "zerotier_utils"
version = "0.1.0"
edition = "2021"
publish = false

[dependencies]
base64 = "0.21"
libc = "0.2"
serde = { version = "1", features = ["derive"] }
signal-hook = "0.3"
zeroize = { version = "1", features = ["zeroize_derive"] }

[dev-dependencies]
rand = "0.8"
