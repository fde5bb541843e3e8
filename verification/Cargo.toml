[package]
name = "aleo_tools"
version = "0.1.0"
edition = "2021"
publish = false

[dependencies]
anyhow = "1"
backoff = { version = "0.4", features = ["tokio"] }
clap = { version = "4", features = ["derive"] }
colored = "2"
env_logger = "0.11"
futures = "0.3"
http = "0.2"
log = "0.4"
memmap2 = "0.9"
num_cpus = "1"
parking_lot = "0.12"
reqwest = { version = "0.12", default-features = false }
serde = { version = "1", features = ["derive"] }
serde_json = "1"
serde_yaml = "0.9"
tokio = { version = "1", features = ["macros", "rt-multi-thread", "sync", "time"] }
warp = "0.3"
