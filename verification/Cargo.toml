[package]
name = "xlsx_import"
version = "0.1.0"
edition = "2021"
publish = false

[dependencies]
quick-xml = "0.30"
zip = { version = "0.6", default-features = false, features = ["deflate"] }
serde = { version = "1", features = ["derive"] }
wasm-bindgen = "0.2"
gloo-utils = "0.2"
