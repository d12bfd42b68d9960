[package]
name = "harmonia"
version = "0.1.0"
edition = "2021"
publish = false

[dependencies]
hex = "0.4"
local-ip-address = "*"
midir = "0.10"
midly = "0.5"
rusty_link = "0.4"
sha1 = "0.10"
shared_memory = "0.12"
socket2 = { version = "0.5", features = ["all"] }
tokio = { version = "1", features = ["full"] }
tracing = "0.1"

[dev-dependencies]
bincode = "1"
