[package]
name = "rtunnel"
version = "0.1.5"
edition = "2021"
publish = false

[dependencies]
uuid = { version = "1", features = ["v4"] }
base64 = "0.22"
sha2 = "0.10"
serde = { version = "1", features = ["derive"] }
serde_json = "1"
keyring = "3"
russh = "0.43"
russh-keys = "0.43"
async-trait = "0.1"
tokio = { version = "1", features = ["full"] }
dirs = "5"
zeroize = "1"
auto-launcher = "*"
