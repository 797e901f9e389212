[package]
name = "sisa_messaging"
version = "0.1.0"
edition = "2021"
publish = false

[dependencies]
iggy = "*"
iggy_common = "*"
opentelemetry = { version = "*", features = ["trace", "metrics"] }
serde = { version = "1", features = ["derive"] }
thiserror = "2"
tokio = { version = "1", features = ["rt", "rt-multi-thread", "macros", "time", "sync"] }
tokio-util = { version = "0.7", features = ["rt"] }
tracing = "0.1"
uuid = { version = "1", features = ["serde"] }

[dev-dependencies]
serde_json = "1"
