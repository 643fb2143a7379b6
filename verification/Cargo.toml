[package]
name = "onesync"
version = "0.1.0"
edition = "2021"
publish = false

[dependencies]
serde = { version = "1", features = ["derive"] }
serde_json = "1"
reqwest = { version = "0.12", default-features = false, features = ["blocking", "json", "rustls-tls"] }
ksni = { version = "0.3", features = ["blocking"] }
gtk4 = "0.9"
libadwaita = { version = "0.7", features = ["v1_4"] }
