[package]
name = "dsc_lib"
version = "0.1.0"
edition = "2021"
publish = false

[dependencies]
base64 = "=0.22.1"
semver = "=1.0.28"
serde = { version = "=1.0.229", features = ["derive"] }
serde_json = { version = "=1.0.154", features = ["preserve_order"] }
rt-format = "=0.3.1"
path-absolutize = "=3.1.1"
linked-hash-map = "=0.5.6"
jsonschema = { version = "=0.28.3", default-features = false }
regex = "=1.13.1"
