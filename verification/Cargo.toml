[package]
name = "kaze"
version = "0.1.0"
edition = "2021"
publish = false

[dependencies]
base64 = "0.22"
directories = "5"
serde = { version = "1", features = ["derive"] }
serde_json = "1"
thiserror = "1"
toml = "0.8"
tracing = "0.1"
tracing-subscriber = { version = "0.3", features = ["env-filter"] }
uuid = { version = "1", features = ["v4"] }
gtk4 = "0.9"
libadwaita = "0.7"
webkit6 = "0.4"
