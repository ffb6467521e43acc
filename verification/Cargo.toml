[package]
name = "jp8-core"
version = "0.1.0"
edition = "2021"
publish = false

[dependencies]
rustfft = "6"
wasm-bindgen = "0.2"
