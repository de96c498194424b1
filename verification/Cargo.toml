[package]
name = "notedeck_channels"
version = "0.1.0"
edition = "2021"
publish = false

[dependencies]
egui = "0.31"
nostrdb = "0.6"
serde = { version = "1", features = ["derive"] }
serde_json = "1"
tracing = "0.1"
uuid = { version = "1", features = ["v4"] }
