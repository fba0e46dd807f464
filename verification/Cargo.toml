[package]
name = "simple_contract"
version = "0.1.0"
edition = "2021"
publish = false

[dependencies]
ink = { version = "4.3", default-features = true }
parity-scale-codec = { version = "3", default-features = true, features = ["derive"] }
scale-info = { version = "2", default-features = true, features = ["derive"] }
