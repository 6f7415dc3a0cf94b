[package]
name = "abbs"
version = "0.1.0"
edition = "2021"
publish = false

[dependencies]
tantivy = "=0.21.1"
zim = "=0.4.0"
html2text = "=0.17.4"
regex = "=1.13.1"
zstd-sys = "=2.0.9"
anyhow = "1"
thiserror = "1"
log = "0.4"
env_logger = { version = "0.11", default-features = false }
lazy_static = "1"
config = { version = "0.15", default-features = false, features = ["toml"] }
figlet-rs = "0.1"
tokio = { version = "1", features = ["rt-multi-thread", "macros", "sync"] }
ssh_ui = "0.4"
