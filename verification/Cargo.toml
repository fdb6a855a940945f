[package]
name = "sand-rs"
version = "0.1.0"
edition = "2021"
publish = false

[dependencies]
fastrand = "2"
js-sys = "0.3"
wasm-bindgen = "0.2"
