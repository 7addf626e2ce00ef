[package]
name = "client-core"
version = "0.1.0"
edition = "2021"
publish = false

[dependencies]
chrono = { version = "0.4", features = ["serde"] }
serde = { version = "1", features = ["derive"] }
serde_json = "1"
serde_yaml = "0.9"
toml = "0.8"
tokio = { version = "1", features = ["full"] }
reqwest = { version = "0.12", default-features = false, features = ["json", "stream", "rustls-tls"] }
futures = "0.3"
sha2 = "0.10"
uuid = { version = "1", features = ["v4", "serde"] }
duckdb = { version = "1", default-features = false }
thiserror = "1"
tracing = "0.1"
walkdir = "2"
flate2 = "1"
tar = "0.4"
zip-extract = "0.2"
which = "6"

[dev-dependencies]
tempfile = "3"
