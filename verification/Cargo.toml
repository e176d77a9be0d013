[package]
name = "wasm_service"
version = "0.1.0"
edition = "2021"
publish = false

[dependencies]
html-to-string-macro = "*"
http = "0.2"
http-serde = "1"
matchit = "0.7"
once_cell = "1"
serde = { version = "1", features = ["derive"] }
serde_json = "1"
serde_urlencoded = "0.7"
strum = { version = "*", features = ["derive"] }
