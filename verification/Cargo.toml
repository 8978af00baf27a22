[package]
name = "cargo_license_template"
version = "0.1.0"
edition = "2021"
publish = false

[dependencies]
regex = "*"
anyhow = "*"
cargo_metadata = "*"
clap = { version = "*", features = ["derive"] }
colored = "*"
ignore = "*"
thiserror = "*"
