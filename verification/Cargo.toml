[package]
name = "rustmote"
version = "0.1.0"
edition = "2021"
publish = false

[dependencies]
anyhow = "1"
async-trait = "0.1"
base64 = "0.22"
chrono = { version = "0.4", features = ["serde"] }
clap = { version = "4", features = ["derive", "env"] }
comfy-table = "7"
dialoguer = "0.11"
directories = "5"
futures = "0.3"
if-addrs = "0.13"
indicatif = "0.17"
ipnet = "2"
keyring = "3"
mdns-sd = "0.11"
reqwest = { version = "0.12", default-features = false, features = ["json", "rustls-tls"] }
rpassword = "7"
russh = "0.45"
serde = { version = "1", features = ["derive"] }
serde_json = "1"
surge-ping = "0.8"
thiserror = "1"
tokio = { version = "1", features = ["full"] }
toml = "0.8"
tracing = "0.1"
tracing-subscriber = { version = "0.3", features = ["env-filter"] }
