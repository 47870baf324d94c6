[package]
name = "hearthdeck"
version = "0.1.0"
edition = "2021"
publish = false

[dependencies]
anyhow = "=1.0.104"
evdev = { version = "=0.13.2", features = ["tokio"] }
serde_json = "=1.0.154"
tokio = { version = "=1.54.1", features = ["rt-multi-thread", "macros", "net", "sync", "time", "signal"] }
tracing = "=0.1.44"
tracing-subscriber = { version = "=0.3.23", features = ["env-filter", "json"] }
ureq = "=3.5.1"
url = "=2.5.8"
urlencoding = "=2.1.3"
