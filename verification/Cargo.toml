[package]
name = "rime_install"
version = "0.1.0"
edition = "2021"
publish = false

[dependencies]
anyhow = "1"
clap = { version = "4", features = ["derive", "env"] }
dirs-next = "2"
git2 = "*"
glob = "0.3"
serde = { version = "1", features = ["derive"] }
serde_yaml = "0.9"
thiserror = "*"
ureq = "3"
