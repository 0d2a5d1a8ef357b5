[package]
name = "kikan"
version = "0.1.0"
edition = "2021"
publish = false

[dependencies]
async-trait = "=0.1.92"
axum = "=0.8.9"
chrono = "=0.4.45"
http = "=1.5.0"
lettre = { version = "=0.11.23", features = ["tokio1", "tokio1-native-tls"] }
libc = "=0.2.191"
rust-embed = { version = "=8.13.0", features = ["mime-guess"] }
serde = { version = "=1.0.229", features = ["derive"] }
serde_json = "=1.0.154"
tokio = { version = "=1.54.1", features = ["full"] }
tokio-util = "=0.7.20"
tower = { version = "=0.5.3", features = ["util"] }
tower-http = { version = "=0.6.11", features = ["fs"] }
tracing = "=0.1.44"
