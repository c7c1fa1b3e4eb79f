[package]
name = "shipping"
version = "0.1.0"
edition = "2021"
publish = false

[dependencies]
actix-web = { version = "=4.18.1", default-features = false, features = ["macros"] }
awc = { version = "=3.11.0", default-features = false }
opentelemetry = "=0.33.1"
opentelemetry-instrumentation-actix-web = { version = "=0.25.0", features = ["awc"] }
serde = { version = "=1.0.229", features = ["derive"] }
serde_json = "=1.0.154"
tracing = "=0.1.44"
uuid = { version = "=1.29.0", features = ["v4"] }
