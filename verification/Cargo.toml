[package]
name = "fluesterwind"
version = "0.1.0"
edition = "2021"
publish = false

[dependencies]
qrcode = "0.14"
image = { version = "0.25", default-features = false, features = ["png"] }
serde = { version = "1", features = ["derive"] }
serde_json = "1"
tiny_http = "0.12"
tokio = { version = "1", features = ["rt", "sync"] }
futures = "0.3"
zbus = "4"
