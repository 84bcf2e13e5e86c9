[package]
name = "ratchet_pawl"
version = "0.1.0"
edition = "2021"
publish = false

[dependencies]
aes = "0.8"
fpe = "0.6"
pwhash = "1"
rand = "0.8"
redb = "2"
serde = { version = "1", features = ["derive"] }
serde_json = "1"
uuid = { version = "1", features = ["v4"] }
libc = "0.2"
rocket = { version = "0.5", features = ["json"] }
