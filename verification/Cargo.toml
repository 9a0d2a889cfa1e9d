[package]
name = "content_density"
version = "0.1.0"
edition = "2021"
publish = false

[dependencies]
html5ever = "0.22"
reqwest = { version = "0.9", default-features = false, features = ["rustls-tls"] }
