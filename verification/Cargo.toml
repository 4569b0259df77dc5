[package]
name = "rs_plugin_openlibrary"
version = "0.1.0"
edition = "2021"
publish = false

[dependencies]
extism-pdk = "=1.4.1"
rs-plugin-common-interfaces = "=0.30.3"
serde = { version = "=1.0.229", features = ["derive"] }
serde_json = "=1.0.154"
