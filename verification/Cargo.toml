[package]
name = "ut"
version = "0.1.0"
edition = "2021"
publish = false

[dependencies]
anyhow = "1"
async-trait = "0.1"
clap = { version = "4", features = ["derive"] }
cpal = "0.17"
libc = "0.2"
nnnoiseless = { version = "0.5", default-features = false }
raw-window-handle = "0.6"
reqwest = { version = "0.12", default-features = false, features = ["rustls-tls"] }
serde = { version = "1", features = ["derive"] }
serde_json = "1"
smithay-client-toolkit = { version = "*", default-features = false }
tokio = { version = "1", features = ["rt", "time", "sync", "macros"] }
toml = "*"
wayland-client = { version = "0.31", features = ["system"] }
wgpu = "*"
