[package]
name = "ledger_host"
version = "0.1.0"
edition = "2021"
publish = false

[dependencies]
anyhow = "*"
base64 = "*"
json = "*"
massa-sc-runtime = "*"
paw = "*"
rand = "*"
serde = { version = "*", features = ["derive"] }
serde_json = "*"
serde_yaml = "*"
structopt = "*"
wyhash = "*"
