[package]
name = "buffr-core"
version = "0.3.0"
edition = "2021"
publish = false

[dependencies]
cef = { version = "147", default-features = false, features = ["dox"] }
chrono = { version = "=0.4.45", features = ["serde"] }
directories = "=6.0.0"
hjkl-clipboard = "0.3"
raw-window-handle = "=0.6.2"
semver = { version = "=1.0.28", features = ["serde"] }
serde = { version = "=1.0.229", features = ["derive"] }
serde_json = "=1.0.154"
thiserror = "=2.0.21"
tracing = "=0.1.44"
ureq = "=2.12.1"
