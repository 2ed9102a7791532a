[package]
name = "limelight"
version = "0.1.0"
edition = "2021"
publish = false

[dependencies]
base64 = "=0.22.1"
dashmap = "=6.2.1"
log = "=0.4.35"
openaction = "=2.8.0"
serde = { version = "=1.0.229", features = ["derive"] }
serde_json = "=1.0.154"
simplelog = "=0.12.2"
tokio = { version = "=1.54.1", features = ["rt-multi-thread", "macros", "time", "sync"] }
ureq = { version = "=3.5.1", features = ["json"] }
