[package]
name = "tt-toplike"
version = "0.6.0"
edition = "2021"
publish = false

[dependencies]
arc-swap = "1"
chrono = { version = "0.4", default-features = false, features = ["clock"] }
clap = { version = "4", default-features = false, features = ["derive", "std", "help", "usage", "error-context"] }
core-foundation = "0.10"
dirs = "6"
env_logger = { version = "0.11", default-features = false }
futures-util = { version = "0.3", default-features = false, features = ["sink", "std"] }
log = "0.4"
luwen-api = "0.8"
luwen-def = "0.8"
luwen-pci = "0.8"
portable-pty = "0.9"
serde = { version = "1", features = ["derive"] }
serde_json = "1"
sysinfo = { version = "0.38", default-features = false, features = ["system", "component"] }
thiserror = "2"
tokio = { version = "1", features = ["rt-multi-thread", "net", "time", "sync"] }
tokio-tungstenite = { version = "0.24", default-features = false, features = ["connect", "handshake"] }
toml = { version = "0.8", default-features = false, features = ["parse"] }
vte = "0.13"
which = "7"
