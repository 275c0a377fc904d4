[package]
name = "grape"
version = "0.1.0"
edition = "2021"
publish = false

[dependencies]
unicode-normalization = "0.1"
serde = { version = "1", features = ["derive"] }
serde_json = "1"
lofty = "0.22"
rodio = "0.21"
reqwest = { version = "0.12", default-features = false, features = ["blocking", "rustls-tls"] }
