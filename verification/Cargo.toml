[package]
name = "anchorage"
version = "0.1.0"
edition = "2021"
publish = false

[dependencies]
url = "2"
linkding-rs = "0.4"
reqwest = { version = "0.12", default-features = false, features = ["json", "rustls-tls"] }
serde = { version = "1", features = ["derive"] }
thiserror = "2"
tracing = "0.1"
tracing-subscriber = { version = "0.3", features = ["env-filter"] }
gtk4 = { version = "0.9", features = ["v4_12"] }
libadwaita = { version = "0.7", features = ["v1_5"] }
oo7 = "0.3"
tokio = { version = "1", features = ["rt-multi-thread"] }
async-channel = "2"
