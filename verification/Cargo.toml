[package]
name = "api_sample"
version = "0.1.0"
edition = "2021"
publish = false

[dependencies]
actix-web = { version = "=4.18.1", default-features = false, features = ["macros", "openssl"] }
anyhow = "=1.0.104"
base64 = "=0.22.1"
chrono = { version = "=0.4.45", default-features = false, features = ["clock"] }
env_logger = "=0.11.11"
hmac = "=0.12.1"
log = "=0.4.34"
mime = "=0.3.17"
openssl = "=0.10.81"
sea-orm = { version = "=1.1.20", default-features = false }
serde = { version = "=1.0.229", features = ["derive"] }
sha2 = "=0.10.9"
thiserror = "=1.0.69"

[dev-dependencies]
jsonwebtoken = { version = "=10.4.0", default-features = false, features = ["rust_crypto"] }
serde_json = "=1.0.154"
