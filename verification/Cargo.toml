[package]
name = "osakit"
version = "0.1.0"
edition = "2021"
publish = false

[dependencies]
serde = { version = "1", features = ["derive"] }
serde_json = { version = "1", features = ["preserve_order"] }
thiserror = "1"
objc2 = "0.6"
objc2-foundation = "0.3"
objc2-osa-kit = "0.3"
