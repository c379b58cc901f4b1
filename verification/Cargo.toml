[package]
name = "sdplay-lib"
version = "0.1.0"
edition = "2021"
publish = false

[dependencies]
anyhow = "=1.0.104"
clap = { version = "=4.6.7", features = ["derive"] }
cpal = "=0.15.3"
directories = "=5.0.1"
dotenv = "=0.15.0"
env_logger = "=0.10.2"
log = "=0.4.34"
poem = "3"
poem-openapi = { version = "5", features = ["swagger-ui", "url"] }
regex = "=1.13.1"
reqwest = "=0.11.27"
rtp-rs = "=0.6.0"
serde = { version = "=1.0.229", features = ["derive"] }
serde_yaml = "0.9"
thiserror = "=1.0.69"
tokio = { version = "=1.54.1", features = ["rt-multi-thread", "macros", "net", "sync", "time", "fs"] }
url = { version = "=2.5.8", features = ["serde"] }
