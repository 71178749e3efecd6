[package]
name = "tuack_ng"
version = "0.1.0"
edition = "2021"
publish = false

[dependencies]
shellwords = "*"
bytesize = "*"
rand = "*"
serde = { version = "*", features = ["derive"] }
serde_json = "*"
sysinfo = "*"
shared_child = "*"
