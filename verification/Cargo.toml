[package]
name = "abyss_tournament"
version = "0.1.0"
edition = "2021"
publish = false

[dependencies]
ascii = "1"
base64 = "0.13"
chrono = "0.4"
parity-scale-codec = "3"
sp-io = "*"
sp-runtime = "*"
