[package]
name = "litentry"
version = "0.1.0"
edition = "2021"
publish = false

[dependencies]
parity-codec = "=3.5.4"
sp-runtime = "=49.0.0"

[dev-dependencies]
blake2-rfc = "=0.2.18"
