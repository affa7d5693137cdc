[package]
name = "cwl_pingora_gateway"
version = "0.1.0"
edition = "2021"
publish = false

[dependencies]
url = "2"
http = "1"
serde = { version = "1", features = ["derive"] }
serde_yaml = "0.9"
thiserror = "2"
log = "0.4"
env_logger = "0.11"
async-trait = "0.1"
bytes = "1"
tracing = "0.1"
tracing-subscriber = { version = "0.3", features = ["env-filter", "json"] }
pingora = { version = "*", features = ["proxy", "openssl"] }
