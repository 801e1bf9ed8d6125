[package]
name = "redarrow"
version = "0.8.0"
edition = "2021"
publish = false

[dependencies]
anyhow = "1"
argh = "0.1"
clap = "4"
curl = { version = "0.4", default-features = false }
futures = "0.3"
glob = "0.3"
hyper = { version = "0.14", features = ["stream"] }
lazy_static = "1"
log = "0.4"
nix = { version = "0.27", features = ["process", "signal"] }
pretty_env_logger = "0.5"
prometheus = { version = "0.13", default-features = false }
regex = "1"
reqwest = { version = "0.11", default-features = false }
rust-ini = "*"
serde = { version = "1", features = ["derive"] }
serde_json = "1"
shlex = "1"
tokio = { version = "1", features = ["rt-multi-thread", "macros", "signal", "sync"] }
url = "2"
wait-timeout = "0.2"
warp = { version = "0.3", default-features = false }
