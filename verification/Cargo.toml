[package]
name = "gdcbot"
version = "0.1.0"
edition = "2021"
publish = false

[dependencies]
serenity = { version = "=0.12.5", default-features = false, features = ["builder", "cache", "client", "framework", "gateway", "model", "http", "standard_framework", "utils", "rustls_backend"] }
tokio = { version = "=1.54.1", features = ["macros", "rt-multi-thread", "time", "sync"] }
reqwest = { version = "=0.11.27", default-features = false, features = ["rustls-tls", "json"] }
quick-xml = { version = "=0.31.0", features = ["serialize"] }
serde = { version = "=1.0.229", features = ["derive"] }
walkdir = "=2.5.0"
dotenv = "=0.15.0"
log = "=0.4.35"
pretty_env_logger = "=0.5.0"
