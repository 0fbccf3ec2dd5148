[package]
name = "nes_pacer"
version = "0.1.0"
edition = "2021"
publish = false

[dependencies]
wasm-bindgen = "0.2"
js-sys = "0.3"
cfg-if = "1"
wee_alloc = "0.4"
