[package]
name = "hass_tether_agent"
version = "0.1.0"
edition = "2021"
publish = false

[dependencies]
tokio = { version = "*", features = ["sync", "rt-multi-thread", "macros"] }
serde = { version = "*", features = ["derive"] }
serde_json = "*"
url = "*"
env_logger = "*"
lazy_static = "*"
hass-rs = "*"
tether-agent = "*"

[dev-dependencies]
hash_map_diff = "*"
