[package]
name = "mushroom"
version = "0.1.0"
edition = "2021"
publish = false

[dependencies]
async-trait = "=0.1.92"
dbus = { version = "=0.9.12", features = ["vendored"] }
hickory-proto = "=0.25.2"
hickory-resolver = { version = "=0.25.2", features = ["tls-ring", "https-ring", "h3-ring", "webpki-roots"] }
hickory-server = "=0.25.2"
networkmanager = "=0.5.0"
sd-notify = "=0.5.0"
serde = { version = "=1.0.229", features = ["derive"] }
socket2 = "=0.5.10"
sysctl = "=0.7.1"
tokio = { version = "=1.54.1", features = ["rt-multi-thread", "net", "macros"] }
tracing = "=0.1.44"
tracing-subscriber = "=0.3.23"
