[package]
name = "tau_agent"
version = "0.1.0"
edition = "2021"
publish = false

[dependencies]
url = "=2.5.8"
scraper = "=0.29.0"
yrs = "=0.28.0"
uuid = { version = "=1.29.0", features = ["v4"] }
serde = { version = "=1.0.229", features = ["derive"] }
serde_json = "=1.0.154"
anyhow = "=1.0.104"
dirs = "=7.0.0"
heck = "=0.5.0"
tungstenite = "*"
tempfile = "*"
log = "0.4"
