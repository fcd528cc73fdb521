[package]
name = "vibra"
version = "0.1.0"
edition = "2021"
publish = false

[dependencies]
anyhow = "=1.0.104"
getrandom = "=0.2.17"
quick-xml = { version = "=0.42.0", features = ["serialize"] }
serde = { version = "=1.0.229", features = ["derive"] }
serde_json = { version = "=1.0.154", features = ["arbitrary_precision"] }
serde_yaml = "=0.9.34"
sha2 = "=0.10.9"
toml = "=0.8.23"
wasm-encoder = "=0.263.0"
yaml-edit = "=0.3.6"
