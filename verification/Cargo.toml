[package]
name = "flashcards"
version = "0.1.0"
edition = "2021"
publish = false

[dependencies]
base64 = "0.21"
env_logger = "0.10"
genanki-rs = "*"
image = "0.24"
log = "0.4"
petgraph = "0.6"
regex = "1"
serde = { version = "1", features = ["derive"] }
serde_yaml = "0.9"
structopt = "0.3"
walkdir = "2"
