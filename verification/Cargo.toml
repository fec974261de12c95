[package]
name = "tiny_wasm"
version = "0.1.0"
edition = "2021"
publish = false

[dependencies]
nom = "=7.1.3"
nom-leb128 = "=0.2.0"

[dev-dependencies]
wat = "=1.263.0"
