[package]
name = "ssl_manager"
version = "0.1.0"
edition = "2021"
publish = false

[dependencies]
anyhow = "1"
cloudflare = { version = "=0.12.0", default-features = false, features = ["rustls-tls"] }
instant-acme = "=0.7.2"
pem = "=3.0.6"
rcgen = "=0.13.2"
rustdns = { version = "=0.7.0", default-features = false }
serde = { version = "1", features = ["derive"] }
serde_json = "1"
tokio = { version = "1", features = ["full"] }
