[package]
name = "lusby"
version = "0.1.0"
edition = "2021"
publish = false

[dependencies]
sha2 = "*"
hex = "*"
base64 = "*"
ed25519-dalek = "*"
chrono = "*"
serde = { version = "*", features = ["derive"] }
serde_json = "*"
zbus = "*"
tokio = { version = "*", features = ["full"] }
anyhow = "*"
udev = "*"
futures-util = "*"
libc = "*"

[dev-dependencies]
rand = "*"
