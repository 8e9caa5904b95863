[package]
name = "cch24"
version = "0.1.0"
edition = "2021"
publish = false

[dependencies]
actix-web = "*"
cargo-manifest = "*"
serde = { version = "*", features = ["derive"] }
serde_json = "*"
serde_yaml = "*"
shuttle-actix-web = "*"
shuttle-runtime = "*"
toml = "*"
