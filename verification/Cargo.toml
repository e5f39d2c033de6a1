[package]
name = "riceathon"
version = "0.1.0"
edition = "2021"
publish = false

[dependencies]
axum = "0.8"
axum-extra = { version = "0.10", features = ["cookie-private", "query"] }
rand = "0.9"
reqwest = { version = "0.12", default-features = false, features = ["json", "rustls-tls"] }
rustls = { version = "0.23", default-features = false, features = ["ring", "std"] }
serde = { version = "1", features = ["derive"] }
slack-morphism = { version = "2", features = ["hyper"] }
tera = "1"
time = "0.3"
tokio = { version = "1", features = ["full"] }
tracing-subscriber = "0.3"
