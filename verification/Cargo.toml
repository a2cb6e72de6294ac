[package]
name = "wikiext"
version = "0.1.0"
edition = "2021"
publish = false

[dependencies]
parse-wiki-text-2 = "=0.2.0"
regex = "=1.13.1"
serde_json = { version = "=1.0.154", features = ["preserve_order"] }
quick-xml = "=0.38.4"
bzip2 = "=0.6.1"
clap = { version = "=4.6.7", features = ["derive"] }
anyhow = "=1.0.104"
env_logger = "=0.11.11"
log = "=0.4.35"
rayon = "=1.12.0"
thiserror = "=2.0.21"
