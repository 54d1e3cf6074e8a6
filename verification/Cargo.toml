[package]
name = "timeline_easing"
version = "0.1.0"
edition = "2021"
publish = false

[dependencies]
anyhow = "=1.0.104"
serde = { version = "=1.0.229", features = ["derive"] }
serde_json = "=1.0.151"
quickxml_to_serde = "=0.7.1"
minidom = "=0.12.0"
