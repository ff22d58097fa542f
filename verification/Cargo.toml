[package]
name = "obol"
version = "0.1.0"
edition = "2021"
publish = false

[dependencies]
sha2 = "0.10"
base64 = "0.22"
rand = "0.9"
serde = { version = "1", features = ["derive"] }
serde_json = "1"
serde-saphyr = "*"
time = { version = "0.3", features = ["formatting", "parsing"] }
tokio = { version = "1", features = ["rt-multi-thread", "macros", "time", "sync"] }
tokio-retry = "0.3"
clap = { version = "4", features = ["derive"] }
thiserror = "2"
secrecy = "0.8"
async-trait = "0.1"
tracing = "0.1"
tracing-subscriber = "0.3"
fd-lock = "4"
pdf-extract = "*"
reqwest = { version = "0.12", default-features = false, features = ["json", "rustls-tls"] }
ratatui = "0.29"
crossterm = "0.28"
security-framework = "*"
