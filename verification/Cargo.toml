[package]
name = "convolution_plug"
version = "0.1.0"
edition = "2021"
publish = false

[dependencies]
hound = "=3.5.1"
serde_json = "1"
serde = { version = "1", features = ["derive"] }
crossbeam-channel = "0.5"
crossbeam = "0.8"
mime_guess = "2"
itertools = "0.12"
anyhow = "1"
ts-rs = "*"
rubato = "0.15"
fundsp = "0.18"
include_dir = "0.7"
keyboard-types = "0.7"
wry = "*"
baseview = "*"
