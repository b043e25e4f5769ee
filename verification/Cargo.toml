[package]
name = "satpaper"
version = "0.1.0"
edition = "2021"
publish = false

[dependencies]
anyhow = "1"
clap = { version = "4", features = ["derive", "env"] }
env_logger = "0.10"
image = "=0.24.9"
log = "0.4"
png = "=0.17.16"
rayon = "1"
serde = { version = "1", features = ["derive"] }
serde_json = "1"
ureq = "2"
