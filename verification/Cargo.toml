[package]
name = "cargo_workspace_lints"
version = "0.1.0"
edition = "2021"
publish = false

[dependencies]
toml = "0.8"
cargo_metadata = "*"
clap = { version = "4", features = ["derive"] }
