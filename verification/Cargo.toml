[package]
name = "rdp-client-core"
version = "0.1.0"
edition = "2021"
publish = false

[dependencies]
ironrdp-core = "=0.3.1"
ironrdp-error = "=0.2.1"
ironrdp-pdu = "=0.11.0"
openh264 = { version = "=0.9.9", features = ["libloading"] }
rand = "=0.9.5"
tracing = "=0.1.44"

[dev-dependencies]
ironrdp-svc = "=0.10.0"
