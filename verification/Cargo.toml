[package]
name = "data_generator"
version = "0.1.0"
edition = "2021"
publish = false

[dependencies]
serde = { version = "*", features = ["derive"] }
serde_json = "*"
tsify-next = "*"
wasm-bindgen = "*"
