[package]
name = "demopack"
version = "0.1.0"
edition = "2021"
publish = false

[dependencies]
tf-demo-parser = "*"
wasm-bindgen = "*"
serde = { version = "*", features = ["derive"] }
