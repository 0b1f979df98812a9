[package]
name = "zenoh-plugin-dds"
version = "0.1.0"
edition = "2021"
publish = false

[dependencies]
async-std = { version = "=1.13.2", features = ["attributes"] }
bincode = "=1.3.3"
cdr = "=0.2.4"
clap = "=2.34.0"
cyclors = "=0.2.0"
flume = "0.11"
futures = "0.3"
hex = "=0.4.3"
log = "0.4"
env_logger = "=0.11.11"
regex = "=1.13.1"
serde = { version = "1", features = ["derive"] }
serde_json = "=1.0.154"
tokio = { version = "1", features = ["time", "rt"] }
zenoh = { version = "=1.10.2", default-features = false, features = ["unstable", "internal"] }
zenoh-ext = { version = "=1.10.2", default-features = false, features = ["unstable"] }
