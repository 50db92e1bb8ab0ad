[package]
name = "hayabusa"
version = "0.1.0"
edition = "2021"
publish = false

[dependencies]
unicode-width = "0.1"
base64 = "0.21"
image = "0.24"
nix = { version = "0.27", features = ["ioctl"] }
clap = { version = "4", features = ["derive"] }
serde = { version = "1", features = ["derive"] }
serde_yaml = "0.9"
toml = "0.8"
lazy_static = "1"
tokio = { version = "1", features = ["full"] }
sysinfo = "0.29"
interprocess = "1"
rlua = "0.19"
reqwest = "0.11"
local-ip-address = "0.5"
gfx-hal = "0.9"
gfx-backend-vulkan = "0.9"

[dev-dependencies]
regex = "1"
