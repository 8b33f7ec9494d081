[package]
name = "jieum"
version = "0.1.0"
edition = "2021"
publish = false

[dependencies]
flate2 = "1"
reqwest = { version = "0.12", default-features = false, features = ["blocking", "rustls-tls"] }
serde = { version = "1", features = ["derive"] }
tch = "*"
