[package]
name = "moss_kernel"
version = "0.1.0"
edition = "2021"
publish = false

[dependencies]
rustc-hash = "=2.0.0"
virtio-drivers = { version = "=0.13.0", default-features = false }
async-trait = "=0.1.92"
log = "=0.4.35"
