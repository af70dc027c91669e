[package]
name = "darkhill"
version = "0.1.0"
edition = "2021"
publish = false

[dependencies]
anyhow = "1"
cpal = "0.11"
docopt = "0.7"
portmidi = "0.2"
rustc-serialize = "0.3"
