[package]
name = "dprint-plugin-arity"
version = "0.1.0"
edition = "2021"
publish = false

[dependencies]
arity-formatter = { version = "=0.7.1", features = ["schema"] }
dprint-core = { version = "=0.70.0", features = ["wasm"] }
indexmap = "=2.14.2"
schemars = "=1.2.3"
serde = { version = "=1.0.229", features = ["derive"] }
serde_json = "=1.0.154"
