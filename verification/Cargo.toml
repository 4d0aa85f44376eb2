[package]
name = "softui"
version = "0.1.0"
edition = "2021"
publish = false

[dependencies]
crossbeam-queue = "=0.3.14"
fontdue = "=0.9.5"
zune-image = { version = "=0.4.15", default-features = false, features = ["jpeg", "png", "metadata"] }
