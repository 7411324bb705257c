[package]
name = "dep_updater"
version = "0.1.0"
edition = "2021"
publish = false

[dependencies]
toml_edit = "0.22"
serde_json = "1.0"
clap = { version = "4", features = ["derive"] }
colored = "3"
