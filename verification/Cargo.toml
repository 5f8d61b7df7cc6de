[package]
name = "preco"
version = "0.1.0"
edition = "2021"
publish = false

[dependencies]
anyhow = "=1.0.104"
clap = { version = "=4.6.7", features = ["derive", "env"] }
clap_complete_command = "=0.6.1"
directories = "=6.0.0"
git2 = { version = "=0.21.0", default-features = false }
rayon = "=1.12.0"
regex = "=1.13.1"
rustc-hash = "=1.1.0"
serde = { version = "=1.0.229", features = ["derive"] }
serde_yaml = "=0.9.34"
shell-words = "=1.1.1"
tracing = "=0.1.44"
tracing-subscriber = { version = "=0.3.23", features = ["env-filter"] }
tracing-tree = "=0.4.1"
