[package]
name = "npdk"
version = "0.1.0"
edition = "2021"
publish = false

[dependencies]
anyhow = "*"
brotli = "*"
clap = { version = "*", features = ["derive"] }
colored = "*"
convert_case = "*"
dialoguer = "*"
indicatif = "*"
notify = "*"
notify-debouncer-full = "*"
serde = { version = "*", features = ["derive"] }
tera = "*"
tokio = { version = "*", features = ["full"] }
toml = "*"
walkdir = "*"
