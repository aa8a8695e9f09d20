[package]
name = "tusk_parser"
version = "0.1.0"
edition = "2021"
publish = false

[dependencies]
serde = { version = "1", features = ["derive"] }
thiserror = "1"
wasm-bindgen = { version = "0.2", features = ["serde-serialize"] }
