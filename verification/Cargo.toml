[package]
name = "artemis_cli"
version = "0.1.0"
edition = "2021"
publish = false

[dependencies]
anyhow = "=1.0.104"
chrono = "=0.4.45"
clap = { version = "=4.6.7", features = ["derive"] }
colored = "=3.1.1"
env_logger = "=0.11.11"
git2 = { version = "=0.21.0", default-features = false }
keyring = { version = "=3.6.3", default-features = false }
log = "=0.4.34"
reqwest = { version = "=0.12.28", default-features = false, features = ["cookies", "json", "rustls-tls"] }
serde = { version = "=1.0.229", features = ["derive"] }
serde_json = "=1.0.151"
tokio = { version = "=1.53.2", features = ["macros", "rt-multi-thread"] }
