[package]
name = "toml_doc"
version = "0.1.0"
edition = "2021"
publish = false

[dependencies]
toml_edit = "*"
wasm-bindgen = "*"
js-sys = "*"
