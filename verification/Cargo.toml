[package]
name = "regasi"
version = "0.1.0"
edition = "2021"
publish = false

[dependencies]
anyhow = "1"
aws-config = "=0.51.0"
aws-sigv4 = { version = "=0.51.1", features = ["sign-eventstream", "sign-http"] }
aws-smithy-eventstream = "=0.51.0"
aws-types = "=0.51.0"
bytes = "=1.12.1"
chrono = { version = "=0.4.45", features = ["serde"] }
colibri = "=0.1.11"
futures = "0.3"
glib = { version = "0.14", features = ["log"] }
gstreamer = "0.17"
gstreamer-app = "0.17"
hyper = { version = "=0.14.32", features = ["client", "http2", "runtime", "stream"] }
hyper-rustls = "0.22"
lib-gst-meet = { version = "=0.4.0", features = ["tracing-subscriber"] }
serde = { version = "1", features = ["derive"] }
serde_json = "1"
structopt = "0.3"
tokio = { version = "1", features = ["macros", "rt-multi-thread", "signal", "sync"] }
tokio-stream = "0.1"
tracing = "0.1"
