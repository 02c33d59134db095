[package]
name = "wasm_weaver"
version = "0.1.0"
edition = "2021"
publish = false

[dependencies]
wasmparser = "*"
wasm-encoder = { version = "*", features = ["wasmparser"] }
clap = { version = "4", features = ["derive"] }
serde = { version = "1", features = ["derive"] }
serde_json = "1"
thiserror = "2"
