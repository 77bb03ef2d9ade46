[package]
name = "fmi-rs"
version = "0.1.0"
edition = "2021"
publish = false

[dependencies]
anyhow = "1"
askama = "*"
colored = "*"
csv = "1"
libloading = "*"
quick-xml = { version = "*", features = ["serialize"] }
reqwest = { version = "*", default-features = false, features = ["blocking", "rustls-tls"] }
serde = { version = "1", features = ["derive"] }
serde_with = "3"
strum_macros = "*"
tempfile = "3"
thiserror = "*"
