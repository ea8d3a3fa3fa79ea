[package]
name = "bios_basic"
version = "0.1.0"
edition = "2021"
publish = false

[dependencies]
tardis = { version = "=0.1.0-rc.19", default-features = false, features = ["crypto", "crypto-with-sm", "async-trait"] }
itertools = "=0.15.0"
fancy-regex = "=0.20.0"
serde = { version = "=1.0.229", features = ["derive"] }
serde_json = "=1.0.154"
strum = { version = "=0.28.0", features = ["derive"] }
lazy_static = "=1.5.1"
