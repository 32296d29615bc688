[package]
name = "forge_downloader"
version = "0.1.0"
edition = "2021"
publish = false

[dependencies]
sha1 = "*"
serde = { version = "*", features = ["derive"] }
serde_json = "*"
zip = "*"
reqwest = { version = "*", default-features = false, features = ["rustls-tls", "json"] }
tokio = { version = "*", features = ["macros", "rt-multi-thread"] }
futures = "*"
chrono = { version = "*", features = ["serde"] }
log = "*"
