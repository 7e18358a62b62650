[package]
name = "astral_auto_patcher"
version = "2.0.0"
edition = "2021"
publish = false

[dependencies]
anyhow = "1"
reqwest = { version = "0.12", default-features = false, features = ["blocking", "json", "rustls-tls"] }
serde = { version = "1", features = ["derive"] }
winreg = "*"
zip = { version = "*", default-features = false, features = ["deflate"] }
