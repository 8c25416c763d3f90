[package]
name = "cosmic_wmctl"
version = "0.1.0"
edition = "2021"
publish = false

[dependencies]
anyhow = "1"
clap = { version = "4", features = ["derive"] }
cosmic-client-toolkit = "=0.2.0"
globset = "=0.4.21"
serde = { version = "1", features = ["derive"] }
serde_json = "1"
smithay-client-toolkit = "=0.20.0"
toml = "=1.1.8"
wayland-client = "0.31"
wayland-protocols = { version = "0.32", features = ["client", "staging"] }
