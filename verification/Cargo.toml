[package]
name = "monoverse"
version = "0.1.0"
edition = "2021"
publish = false

[dependencies]
anyhow = "*"
chrono = "*"
clap = { version = "*", features = ["derive"] }
clap-verbosity-flag = "*"
config = "*"
git2 = "*"
libyaml-safer = "*"
log = "*"
regex = "*"
serde = { version = "*", features = ["derive"] }
stderrlog = "*"
toml_edit = "*"
