[package]
name = "pi"
version = "0.1.0"
edition = "2021"
publish = false

[dependencies]
chrono = "0.4"
uuid = { version = "1", features = ["v4"] }
unicode-normalization = "0.1"
dirs = "5"
regex = "1"
glob = "0.3"
serde = { version = "1", features = ["derive"] }
serde_json = "1"
tokio = { version = "1", features = ["fs", "io-util", "macros", "process", "rt", "time"] }
async-trait = "0.1"
base64 = "0.22"
tempfile = "3"
fs4 = "0.13"
ignore = "0.4"
rusqlite = { version = "0.32", features = ["bundled"] }
rquickjs = { version = "0.6", features = ["futures"] }
