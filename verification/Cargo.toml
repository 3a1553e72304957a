[package]
name = "nicaiemu"
version = "0.1.0"
edition = "2021"
publish = false

[dependencies]
anyhow = "=1.0.104"
armv4t_emu = "*"
crc32fast = "=1.5.4"
encoding_rs = "=0.8.44"
image = { version = "=0.25.10", default-features = false, features = ["png", "gif"] }
lz4_flex = "=0.11.6"
unifont = "*"
