[package]
name = "json_materializer"
version = "0.1.0"
edition = "2021"
publish = false

[dependencies]
napi = { version = "2", default-features = false, features = ["napi3", "compat-mode"] }
napi-derive = { version = "2", default-features = false, features = ["compat-mode"] }
serde = "1"
serde_json = { version = "1", features = ["preserve_order"] }
