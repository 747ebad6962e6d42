[package]
name = "doorman"
version = "0.1.0"
edition = "2021"
publish = false

[dependencies]
anyhow = "=1.0.104"
chrono = { version = "=0.4.45", features = ["serde"] }
chrono-humanize = "=0.2.3"
clap = { version = "=4.6.7", features = ["derive"] }
comfy-table = "=7.2.2"
directories = "=5.0.1"
fs4 = "=0.6.6"
handlebars = "=4.5.0"
log = "=0.4.34"
nix = { version = "=0.27.1", features = ["user"] }
rust-embed = { version = "=8.13.0", features = ["interpolate-folder-path"] }
serde = { version = "=1.0.229", features = ["derive"] }
serde_json = { version = "=1.0.154", features = ["preserve_order"] }
serde_yaml = "=0.9.34"
which = "=4.4.2"
yore = "=1.4.0"
