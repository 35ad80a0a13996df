[package]
name = "ble_to_mqtt"
version = "0.1.0"
edition = "2021"
publish = false

[dependencies]
btleplug = "*"
clap = { version = "*", features = ["derive"] }
env_logger = "*"
futures = "*"
log = "*"
paho-mqtt = "*"
pretty_env_logger = "*"
serde = "*"
serde_derive = "*"
serde_json = "*"
serde_yaml = "*"
thiserror = "*"
tokio = { version = "*", features = ["macros", "rt-multi-thread"] }
