[package]
name = "cargo-sane"
version = "0.1.0"
edition = "2021"
publish = false

[dependencies]
semver = "1"
anyhow = "1"
clap = { version = "4", features = ["derive"] }
colored = "2"
dialoguer = "0.11"
glob = "0.3"
indicatif = "0.17"
rayon = "1"
reqwest = { version = "0.12", default-features = false, features = ["blocking", "json", "rustls-tls"] }
serde = { version = "1", features = ["derive"] }
toml = "0.8"
