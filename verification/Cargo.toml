[package]
name = "kaonic"
version = "0.1.0"
edition = "2021"
publish = false

[dependencies]
axum = { version = "0.8", features = ["ws", "multipart"] }
axum-server = { version = "0.7", features = ["tls-rustls-no-provider"] }
cidr = { version = "0.3", features = ["serde"] }
clap = { version = "4", features = ["derive"] }
codec2 = "0.3"
env_logger = "0.11"
futures-util = "0.3"
if-addrs = "0.13"
leptos = { version = "0.8", features = ["ssr"] }
leptos_meta = { version = "0.8", features = ["ssr"] }
leptos_router = { version = "0.8", features = ["ssr"] }
log = "0.4"
maud = { version = "0.27", features = ["axum"] }
parking_lot = "0.12"
rand = "0.8"
rand_core = "0.6"
reqwest = { version = "0.12", default-features = false, features = ["json", "rustls-tls-no-provider"] }
reticulum = "*"
serde = { version = "1", features = ["derive"] }
serde_json = "1"
socket2 = { version = "0.5", features = ["all"] }
thiserror = "2"
tokio = { version = "1", features = ["full"] }
tokio-util = "0.7"
toml = "0.8"
