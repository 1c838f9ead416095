[package]
name = "gnotes"
version = "0.1.0"
edition = "2021"
publish = false

[dependencies]
anyhow = "1"
chrono = "0.4"
clap = { version = "4", features = ["derive"] }
dirs = "*"
edit = "*"
env_logger = "*"
envy = "0.4"
git2 = "*"
log = "0.4"
serde = { version = "1", features = ["derive"] }
serde_json = "1"
tabular = "0.2"
termimad = "*"
thiserror = "1"
toml = "*"
