[package]
name = "pulsar_hub"
version = "0.1.0"
edition = "2021"
publish = false

[dependencies]
chrono = { version = "0.4", default-features = false, features = ["std", "clock"] }
directories = "*"
toml = "*"
serde = { version = "1", features = ["derive"] }
serde_json = "1"
reqwest = { version = "*", default-features = false, features = ["blocking", "rustls-tls"] }
flate2 = "1"
tar = "*"
zip = { version = "*", default-features = false, features = ["deflate"] }
walkdir = "2"
open = "*"
git2 = { version = "*", default-features = false }
parking_lot = "*"
tracing = "*"

[dev-dependencies]
tempfile = "3"
