[package]
name = "cs2-buttplug"
version = "0.4.0"
edition = "2021"
publish = false

[dependencies]
semver = "=1.0.28"
anyhow = "=1.0.104"
fehler = "=1.0.0"
futures = "=0.3.34"
log = "=0.4.35"
pretty_env_logger = "=0.5.0"
serde = { version = "=1.0.229", features = ["derive"] }
toml = "=0.8.23"
tokio = { version = "=1.54.1", features = ["full"] }
tokio-stream = { version = "=0.1.19", features = ["sync"] }
rhai = "0.18"
csgo-gsi = { version = "=0.3.0", features = ["rhai"] }
git-transport = { version = "=0.11.1", features = ["blocking-client"] }
