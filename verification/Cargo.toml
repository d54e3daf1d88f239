[package]
name = "clitools"
version = "0.1.0"
edition = "2021"
publish = false

[dependencies]
anyhow = "*"
async-trait = "*"
chrono = "*"
clap = { version = "*", features = ["derive", "env"] }
clap_complete = "*"
comfy-table = "*"
config = "*"
crossterm = "*"
dialoguer = "*"
env_logger = "*"
indicatif = "*"
inquire = "*"
log = "*"
ollama-rs = "*"
owo-colors = "*"
regex = "*"
reqwest = { version = "*", default-features = false, features = ["json", "multipart"] }
semver = "*"
serde = { version = "*", features = ["derive"] }
serde_json = "*"
tempfile = "*"
termimad = "*"
tokio = { version = "*", features = ["macros", "rt-multi-thread", "sync", "time"] }
toml = "*"
toml_edit = "*"
