[package]
name = "up_linux_streamer"
version = "0.1.0"
edition = "2021"
publish = false

[dependencies]
serde_json = "=1.0.154"
up-rust = { version = "=0.9.0", features = ["usubscription"] }
serde = { version = "1", features = ["derive"] }
clap = { version = "4", features = ["derive"] }
env_logger = "*"
json5 = "*"
log = "0.4"
tokio = { version = "1", features = ["macros", "rt-multi-thread", "sync", "time"] }
async-trait = "0.1"
protobuf = "3"
up-transport-vsomeip = "*"
async-std = "1"
futures = "0.3"
tracing = "0.1"
zenoh-core = { version = "1", default-features = false }
zenoh-plugin-trait = { version = "1", default-features = false }
zenoh-result = { version = "1", default-features = false }
zenoh-util = { version = "1", default-features = false }
