[package]
name = "ysos"
version = "0.1.0"
edition = "2021"
publish = false

[dependencies]
x86_64 = { version = "0.15", default-features = false, features = ["instructions"] }
crossbeam-queue = { version = "0.3", default-features = false, features = ["alloc"] }
spin = "0.9"
log = "0.4"
chrono = { version = "0.4", default-features = false }
xmas-elf = "0.9"
