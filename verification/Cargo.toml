[package]
name = "serve_limit"
version = "0.1.0"
edition = "2021"
publish = false

[dependencies]
axum = "0.8"
bytes = "1"
const_format = "0.2"
futures = "0.3"
http-body = "1"
log = "0.4"
pin-project-lite = "0.2"
tokio = { version = "1", features = ["macros", "rt", "sync", "time"] }
tower = "0.5"
