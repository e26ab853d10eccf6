[package]
name = "libp9cpu"
version = "0.1.0"
edition = "2021"
publish = false

[dependencies]
anyhow = "1"
async-trait = "0.1"
clap = { version = "4", features = ["derive"] }
close_fds = "0.3"
flexi_logger = "0.25"
futures = "0.3"
libc = "0.2"
log = "0.4"
nix = "0.26"
prost = "0.11"
rs9p = "*"
russh = "0.37"
russh-keys = "0.37"
thiserror = "1"
tokio = { version = "1", features = ["full"] }
tokio-stream = { version = "0.1", features = ["net"] }
tokio-util = "0.7"
tokio-vsock = "0.4"
tonic = "0.8"
tower = "0.4"
uuid = { version = "1", features = ["v4"] }
vsock = "0.3"
