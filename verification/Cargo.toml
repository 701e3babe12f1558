[package]
name = "icale_core"
version = "0.1.0"
edition = "2021"
publish = false

[dependencies]
uuid = { version = "=0.8.2", features = ["v4"] }
chrono = "=0.4.45"
gluesql = "=0.6.0"
serde = { version = "=1.0.229", features = ["derive"] }
serde_json = "=1.0.154"
sql-builder = "=3.1.1"
config = "=0.11.0"
futures = "=0.3.34"
async-trait = "=0.1.92"
wasm-bindgen = "=0.2.130"
