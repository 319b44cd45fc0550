[package]
name = "obscura"
version = "0.1.0"
edition = "2021"
publish = false

[dependencies]
anyhow = "=1.0.104"
base64 = "=0.22.1"
deno_core = "=0.387.0"
deno_error = "=0.7.3"
futures-util = "0.3"
reqwest = { version = "=0.12.28", default-features = false, features = ["rustls-tls"] }
serde = { version = "1", features = ["derive"] }
serde_json = { version = "=1.0.154", features = ["preserve_order", "float_roundtrip"] }
sha1 = "=0.10.7"
sha2 = "=0.10.9"
thiserror = "=2.0.21"
tokio = { version = "=1.54.1", features = ["rt", "net", "sync", "time", "macros", "io-util", "fs"] }
tokio-tungstenite = "=0.26.2"
tracing = "0.1"
url = "=2.5.8"
uuid = { version = "=1.29.0", features = ["v4"] }
