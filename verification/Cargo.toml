[package]
name = "ramon"
version = "0.1.0"
edition = "2021"
publish = false

[dependencies]
anyhow = "=1.0.104"
duration-str = { version = "=0.7.1", default-features = false }
env_logger = "=0.10.2"
lettre = { version = "=0.11.23", default-features = false, features = ["builder", "smtp-transport", "tokio1-native-tls"] }
log = "=0.4.34"
notify = "=6.1.1"
regex = "=1.13.1"
serde = "=1.0.229"
tokio = { version = "=1.54.1", features = ["full"] }
toml = "=0.8.23"
