[package]
name = "rona"
version = "0.1.0"
edition = "2021"
publish = false

[dependencies]
glob = "*"
git2 = "*"
chrono = "*"
dirs = "*"
toml = "*"
serde = { version = "*", features = ["derive"] }
clap = { version = "*", features = ["derive"] }
clap_complete = "*"
inquire = "*"
thiserror = "*"
