[package]
name = "sub_tracker"
version = "0.1.0"
edition = "2021"
publish = false

[dependencies]
frame-support = "=49.0.0"
frame-system = "=49.0.0"
sp-io = "=49.0.0"
sp-runtime = "=49.0.0"
scale-info = { version = "=2.11.6", features = ["derive"] }
parity-scale-codec = { version = "=3.7.5", features = ["derive"] }
syn = { version = "=1.0.109", features = ["full", "extra-traits"] }
proc-macro2 = "=1.0.107"
