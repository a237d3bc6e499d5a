[package]
name = "wanix_cli"
version = "0.1.0"
edition = "2021"
publish = false

[dependencies]
serde = { version = "1", features = ["derive"] }
serde_json = "1"
sha2 = "0.10"
toml = "*"
tungstenite = "*"
libc = "0.2"
rustix = { version = "*", features = ["termios"] }
