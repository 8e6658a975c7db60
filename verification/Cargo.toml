[package]
name = "taru"
version = "0.1.0"
edition = "2021"
publish = false

[dependencies]
actix-files = "0.5"
actix-rt = "1"
actix-service = "1"
actix-web = { version = "3", default-features = false }
bytes = "0.5"
futures = "0.3"
http = "0.2"
libc = "0.2"
listenfd = "0.3"
mio = { version = "0.7", features = ["os-poll", "os-util"] }
os_pipe = "0.9"
parking_lot = "0.11"
paste = "1"
serde = { version = "1", features = ["derive"] }
serde_json = "1"
serde_yaml = "0.8"
tokio = { version = "0.2", features = ["sync", "rt-core", "process", "signal", "time", "macros", "stream"] }
