[package]
name = "auralink"
version = "0.1.0"
edition = "2021"
publish = false

[dependencies]
chrono = { version = "0.4", default-features = false, features = ["alloc", "now"] }
dirs = "6"
prost = "0.13"
rusqlite = "*"
serde = { version = "1", features = ["derive"] }
serde_json = "1"
tokio = { version = "1", default-features = false, features = ["time"] }
tonic = { version = "0.12", default-features = false, features = ["transport", "codegen", "prost"] }
uuid = { version = "1", features = ["v4"] }
