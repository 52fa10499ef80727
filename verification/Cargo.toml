[package]
name = "wasm_link"
version = "0.1.0"
edition = "2021"
publish = false

[dependencies]
enum-iterator = "=0.7.0"
wasmer-types = "=6.1.0"
wasmer-vm = "=6.1.0"
