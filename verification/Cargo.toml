[package]
name = "minicd"
version = "0.1.0"
edition = "2021"
publish = false

[dependencies]
regex = "=1.13.1"
run_script = "=0.11.2"
http = "=1.5.0"
serde = { version = "=1.0.229", features = ["derive"] }
serde_yaml = "=0.9.34"
figment = { version = "=0.10.19", features = ["toml", "yaml", "env"] }
warp = { version = "=0.4.3", features = ["server"] }
tokio = { version = "=1.53.2", features = ["full"] }
lettre = { version = "=0.11.23", default-features = false, features = ["smtp-transport", "builder", "tokio1", "tokio1-rustls-tls"] }
reqwest = { version = "=0.13.5", default-features = false }
log = "=0.4.34"
env_logger = "=0.11.11"
walkdir = "=2.5.0"
temp-dir = "=0.2.0"
