[package]
name = "tunneload"
version = "0.1.0"
edition = "2021"
publish = false

[dependencies]
stream-httparse = "*"
base64 = "0.13"
flate2 = "1"
tokio = { version = "1", features = ["full"] }
log = "0.4"
left-right = "0.11"
serde = { version = "1", features = ["derive"] }
serde_json = "1"
async-trait = "0.1"
lazy_static = "1"
futures = "0.3"
