[package]
name = "vcontrol"
version = "0.1.0"
edition = "2021"
publish = false

[dependencies]
chrono = "=0.4.45"
regex = "=1.13.1"
stringcase = "=1.0.0"
serde = { version = "=1.0.229", features = ["derive"] }
serde_json = "=1.0.154"
serde_with = { version = "3", default-features = false, features = ["alloc", "hex"] }
tokio = { version = "=1.54.1", features = ["rt-multi-thread", "macros", "io-util", "io-std", "net", "time", "fs"] }
tokio-serial = { version = "=5.5.0", default-features = false }
serialport = { version = "=4.10.1", default-features = false }
pin-project = "=1.1.13"
clap = { version = "=4.6.7", features = ["cargo"] }
log = "=0.4.35"
env_logger = "=0.11.11"
webthing = "=0.15.2"
schemars = "=0.8.22"
actix-rt = "=2.15.0"
