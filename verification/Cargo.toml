[package]
name = "otlp_forwarder"
version = "0.1.0"
edition = "2021"
publish = false

[dependencies]
serde_json = "1"
base64 = "*"
flate2 = "1"
prost = "*"
opentelemetry-proto = { version = "*", default-features = false, features = ["trace", "gen-tonic-messages"] }
reqwest = { version = "0.12", default-features = false }
tokio = { version = "1", features = ["macros", "rt-multi-thread"] }
