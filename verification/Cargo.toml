[package]
name = "simple_steam_wrapper"
version = "0.1.0"
edition = "2021"
publish = false

[dependencies]
which = "*"
vdf-reader = "*"
regex = "*"
pci-ids = "*"
pci-info = "*"
serde = { version = "1", features = ["derive"] }
serde_yaml = "*"
tokio = { version = "1", features = ["full"] }
directories = "*"
rand = "0.9"
fs_extra = "*"
libc = "*"
open = "*"
device_query = "*"
once_cell = "*"
anyhow = "*"
log = "*"
reqwest = { version = "0.12", default-features = false, features = ["json", "stream", "rustls-tls"] }
autocompress = "*"
tokio-tar = "*"
tokio-util = { version = "*", features = ["io"] }
futures-util = "*"
tracing-subscriber = { version = "*", features = ["env-filter"] }
