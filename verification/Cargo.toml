[package]
name = "contact_tracing"
version = "0.1.0"
edition = "2021"
publish = false

[dependencies]
uuid = "*"
parity-scale-codec = { version = "*", features = ["derive"] }
sp-core = "*"
sp-runtime = "*"
