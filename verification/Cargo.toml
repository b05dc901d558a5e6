[package]
name = "ikigai-encrypt"
version = "0.1.0"
edition = "2021"
publish = false

[dependencies]
age = { version = "=0.11.5", features = ["armor"] }
ikigai-core = "0.1"
async-trait = "=0.1.92"

[dev-dependencies]
futures = "=0.3.34"
ikigai-conformance = "0.1"
