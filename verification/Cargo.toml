[package]
name = "spyglass"
version = "0.1.0"
edition = "2021"
publish = false

[dependencies]
color-eyre = "=0.6.5"
dirs = "=7.0.0"
exp-rs = "=0.1.0"
fuzzy-matcher = "=0.3.7"
libc = "=0.2.191"
ratatui = "=0.30.2"
ratatui-textarea = "=0.9.4"
rayon = "=1.12.0"
reqwest = { version = "=0.13.5", features = ["blocking"] }
serde = { version = "=1.0.229", features = ["derive"] }
serde_json = "=1.0.154"
serde_yaml = "=0.9.34"
sysinfo = "=0.40.1"
toml = "=1.2.1"
url-escape = "=0.1.2"
