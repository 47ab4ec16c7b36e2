[package]
name = "proust_core"
version = "0.1.0"
edition = "2021"
publish = false

[dependencies]
crc = "*"
mio = { version = "*", features = ["os-poll", "net"] }
memmap = "*"
