[package]
name = "render_assets"
version = "0.1.0"
edition = "2021"
publish = false

[dependencies]
toml = "0.5"
serde = { version = "1", features = ["derive"] }
structopt = "0.3"
indicatif = "0.17"
