[package]
name = "scripture_formats"
version = "0.1.0"
edition = "2021"
publish = false

[dependencies]
regex = "=1.13.1"
serde_json = "=1.0.154"
quick-xml = "=0.36.2"
structopt = "=0.3.26"
wasm-bindgen = "0.2"
