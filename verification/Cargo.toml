[package]
name = "http_broker"
version = "0.1.0"
edition = "2021"
publish = false

[dependencies]
async-trait = "0.1"
chrono = { version = "0.4", features = ["serde"] }
futures = "0.3"
jsonschema = { version = "0.17", default-features = false }
reqwest = { version = "0.11", default-features = false, features = ["rustls-tls"] }
rumqttc = "0.24"
rustls-native-certs = "0.7"
serde = { version = "1", features = ["derive"] }
serde_json = "1"
tokio = { version = "1", features = ["full"] }
tokio-rustls = "0.25"
tokio-stream = "0.1"
tonic = "0.10"
