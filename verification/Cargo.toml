[package]
name = "up-wire-arrow"
version = "0.1.0"
edition = "2021"
publish = false

[dependencies]
arrow-array = "=60.1.0"
arrow-ipc = "=60.1.0"
arrow-schema = "=60.1.0"
bytes = "=1.12.1"
