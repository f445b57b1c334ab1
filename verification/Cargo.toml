[package]
name = "helios_virtio"
version = "0.1.0"
edition = "2021"
publish = false

[dependencies]
virtio-drivers = "=0.13.0"
