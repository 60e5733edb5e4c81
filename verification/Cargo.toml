[package]
name = "cast_client"
version = "0.1.0"
edition = "2021"
publish = false

[dependencies]
serde = { version = "=1.0.229", features = ["derive"] }
serde_json = { version = "=1.0.154", features = ["preserve_order"] }
uuid = { version = "=1.29.0", features = ["v4"] }
genai = "=0.7.2"
rmcp = { version = "=3.8.0", features = ["client", "transport-streamable-http-client-reqwest"] }
tokio = { version = "=1.54.1", features = ["full"] }
tokio-util = "=0.7.20"
reqwest = { version = "=0.13.5", features = ["json", "stream"] }
futures-util = "=0.3.34"
eventsource-stream = "=0.2.3"
http = "=1.5.0"
dirs = "=7.0.0"
tracing = "=0.1.44"
tracing-subscriber = "=0.3.23"
