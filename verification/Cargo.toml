[package]
name = "minilang"
version = "0.1.0"
edition = "2021"
publish = false

[dependencies]
wasm-encoder = "=0.261.0"
wasmprinter = "=0.261.0"
wasmtime = "=48.0.5"
